use vstd::prelude::*;

use std::collections::VecDeque;

use crate::can::message::pmsgs_view;
use crate::can::message::CanMessage;
use crate::can::message::ParsedMessage;
use crate::can::message::ParsedMessageView;
use crate::text::numbered_title;
use crate::text::spec_numbered;

verus! {

/// The list viewer keeps fewer than this many messages.
pub const MAX_MESSAGES: usize = 200;

/// The scrolling-list viewer's state: its numbered title, the most
/// recent decoded messages oldest first, a frozen snapshot while
/// paused, and the pause flag.
pub struct ViewerList {
    pub title: String,
    pub decoded_msgs: VecDeque<ParsedMessage>,
    pub frozen_msgs: Option<VecDeque<ParsedMessage>>,
    pub paused: bool,
}

/// One message appended to the list: the front is dropped until there
/// is room below the bound, then the message joins at the back.
pub open spec fn spec_list_insert(s: Seq<ParsedMessageView>, x: ParsedMessageView) -> Seq<
    ParsedMessageView,
> {
    let kept = if s.len() >= MAX_MESSAGES as int - 1 {
        s.skip(s.len() - (MAX_MESSAGES as int - 2))
    } else {
        s
    };
    kept.push(x)
}

impl ViewerList {
    /// A list viewer with the next instance number in its title,
    /// empty, not paused.
    pub fn new(instance_num: usize) -> (r: Self)
        ensures
            r.title@ == spec_numbered("CAN Viewer Table #"@, instance_num as nat),
            r.decoded_msgs@.len() == 0,
            r.frozen_msgs is None,
            !r.paused,
    {
        ViewerList {
            title: numbered_title("CAN Viewer Table #", instance_num),
            decoded_msgs: VecDeque::new(),
            frozen_msgs: None,
            paused: false,
        }
    }

    /// Appends one decoded message when running; while paused the
    /// state is left as it stands.
    pub fn handle_can_message(&mut self, msg: &CanMessage)
        ensures
            old(self).paused ==> *final(self) == *old(self),
            !old(self).paused ==> {
                &&& final(self).title == old(self).title
                &&& final(self).frozen_msgs == old(self).frozen_msgs
                &&& final(self).paused == old(self).paused
                &&& ({
                    match msg {
                        CanMessage::ParsedMessage(pm) => pmsgs_view(final(self).decoded_msgs@)
                            == spec_list_insert(pmsgs_view(old(self).decoded_msgs@), pm@),
                    }
                })
            },
    {
        match msg {
            CanMessage::ParsedMessage(pm) => {
                if self.paused {
                    return ;
                }
                while self.decoded_msgs.len() >= MAX_MESSAGES - 1
                    invariant
                        self.decoded_msgs@.len() <= old(self).decoded_msgs@.len(),
                        self.decoded_msgs@ == old(self).decoded_msgs@.skip(
                            old(self).decoded_msgs@.len() - self.decoded_msgs@.len(),
                        ),
                        self.decoded_msgs@.len() >= MAX_MESSAGES as int - 2 || self.decoded_msgs@
                            == old(self).decoded_msgs@,
                        self.title == old(self).title,
                        self.frozen_msgs == old(self).frozen_msgs,
                        self.paused == old(self).paused,
                    decreases self.decoded_msgs@.len(),
                {
                    let ghost prevv = self.decoded_msgs@;
                    self.decoded_msgs.pop_front();
                    proof {
                        assert(self.decoded_msgs@ =~= prevv.drop_first());
                        assert(self.decoded_msgs@ =~= old(self).decoded_msgs@.skip(
                            old(self).decoded_msgs@.len() - self.decoded_msgs@.len(),
                        ));
                    }
                }
                let ghost midv = self.decoded_msgs@;
                self.decoded_msgs.push_back(pm.clone());
                proof {
                    let oldv = old(self).decoded_msgs@;
                    let s = pmsgs_view(oldv);
                    let shift = oldv.len() - midv.len();
                    assert(midv == oldv.skip(shift));
                    if oldv.len() >= MAX_MESSAGES as int - 1 {
                        assert(midv.len() == MAX_MESSAGES as int - 2);
                    } else {
                        assert(midv =~= oldv);
                    }
                    assert forall|k: int|
                        0 <= k < self.decoded_msgs@.len() implies pmsgs_view(
                        self.decoded_msgs@,
                    )[k] == spec_list_insert(s, pm@)[k] by {
                        if k < midv.len() {
                            assert(self.decoded_msgs@[k] == midv[k]);
                            assert(midv[k] == oldv[shift + k]);
                            assert(s[shift + k] == oldv[shift + k]@);
                        }
                    }
                    assert(pmsgs_view(self.decoded_msgs@) =~= spec_list_insert(s, pm@));
                }
            },
        }
    }
}

} // verus!
