use vstd::prelude::*;

use std::collections::VecDeque;

use crate::can::message::pmsgs_view;
use crate::can::message::CanMessage;
use crate::can::message::ParsedMessage;
use crate::text::numbered_title;
use crate::text::spec_numbered;

verus! {

/// At most this many decoded messages are kept for display.
pub const CAN_VIEWER_MAX_DECODED_MSGS: usize = 1000;

/// The rolling-list viewer's state: its numbered title and the most
/// recent decoded messages, oldest first.
pub struct CanViewer {
    pub title: String,
    pub decoded_msgs: VecDeque<ParsedMessage>,
}

impl CanViewer {
    /// A viewer with the next instance number in its title and no
    /// messages yet.
    pub fn new(instance_num: usize) -> (r: Self)
        ensures
            r.title@ == spec_numbered("CAN Viewer #"@, instance_num as nat),
            r.decoded_msgs@.len() == 0,
    {
        CanViewer {
            title: numbered_title("CAN Viewer #", instance_num),
            decoded_msgs: VecDeque::with_capacity(CAN_VIEWER_MAX_DECODED_MSGS),
        }
    }

    /// Appends one decoded message, dropping the oldest when the
    /// buffer is full.
    pub fn handle_can_message(&mut self, msg: &CanMessage)
        ensures
            final(self).title == old(self).title,
            ({
                match msg {
                    CanMessage::ParsedMessage(pm) => {
                        &&& old(self).decoded_msgs@.len() == CAN_VIEWER_MAX_DECODED_MSGS
                            ==> pmsgs_view(final(self).decoded_msgs@) == pmsgs_view(
                            old(self).decoded_msgs@,
                        ).drop_first().push(pm@)
                        &&& old(self).decoded_msgs@.len() != CAN_VIEWER_MAX_DECODED_MSGS
                            ==> pmsgs_view(final(self).decoded_msgs@) == pmsgs_view(
                            old(self).decoded_msgs@,
                        ).push(pm@)
                    },
                }
            }),
    {
        match msg {
            CanMessage::ParsedMessage(pm) => {
                let val = pm.clone();
                if self.decoded_msgs.len() == CAN_VIEWER_MAX_DECODED_MSGS {
                    let ghost prevv = self.decoded_msgs@;
                    self.decoded_msgs.pop_front();
                    proof {
                        assert forall|k: int|
                            0 <= k < self.decoded_msgs@.len() implies pmsgs_view(
                            self.decoded_msgs@,
                        )[k] == pmsgs_view(prevv).drop_first()[k] by {
                            assert(self.decoded_msgs@[k] == prevv[k + 1]);
                        }
                        assert(pmsgs_view(self.decoded_msgs@) =~= pmsgs_view(prevv).drop_first());
                    }
                }
                let ghost midv = self.decoded_msgs@;
                self.decoded_msgs.push_back(val);
                proof {
                    assert forall|k: int|
                        0 <= k < self.decoded_msgs@.len() implies pmsgs_view(
                        self.decoded_msgs@,
                    )[k] == pmsgs_view(midv).push(pm@)[k] by {
                        if k < midv.len() {
                            assert(self.decoded_msgs@[k] == midv[k]);
                        }
                    }
                    assert(pmsgs_view(self.decoded_msgs@) =~= pmsgs_view(midv).push(pm@));
                }
            },
        }
    }
}

} // verus!
