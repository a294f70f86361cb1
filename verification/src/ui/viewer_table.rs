use vstd::prelude::*;

use std::collections::HashMap;

use crate::can::message::CanMessage;
use crate::can::message::ParsedMessage;
use crate::can::message::ParsedMessageView;
use crate::text::numbered_title;
use crate::text::spec_numbered;

verus! {

/// The contents of an id-keyed message table.
pub open spec fn table_msgs_view(m: Map<u32, ParsedMessage>) -> Map<u32, ParsedMessageView> {
    m.map_values(|p: ParsedMessage| p@)
}

/// The per-id viewer's state: its numbered title, the latest decoded
/// message per arbitration id, a frozen snapshot while paused, the
/// pause flag, and the search text.
pub struct ViewerTable {
    pub title: String,
    pub decoded_msgs: HashMap<u32, ParsedMessage>,
    pub frozen_msgs: Option<HashMap<u32, ParsedMessage>>,
    pub paused: bool,
    pub search: String,
}

impl ViewerTable {
    /// A table viewer with the next instance number in its title,
    /// empty, not paused, with an empty search.
    pub fn new(instance_num: usize) -> (r: Self)
        ensures
            r.title@ == spec_numbered("CAN Viewer Table #"@, instance_num as nat),
            r.decoded_msgs@ == Map::<u32, ParsedMessage>::empty(),
            r.frozen_msgs is None,
            !r.paused,
            r.search@.len() == 0,
    {
        ViewerTable {
            title: numbered_title("CAN Viewer Table #", instance_num),
            decoded_msgs: HashMap::new(),
            frozen_msgs: None,
            paused: false,
            search: String::new(),
        }
    }

    /// Stores one decoded message under its arbitration id, replacing
    /// the id's previous message.
    pub fn handle_can_message(&mut self, msg: &CanMessage)
        ensures
            final(self).title == old(self).title,
            final(self).frozen_msgs == old(self).frozen_msgs,
            final(self).paused == old(self).paused,
            final(self).search == old(self).search,
            ({
                match msg {
                    CanMessage::ParsedMessage(pm) => table_msgs_view(final(self).decoded_msgs@)
                        == table_msgs_view(old(self).decoded_msgs@).insert(pm.decoded.msg_id, pm@),
                }
            }),
    {
        match msg {
            CanMessage::ParsedMessage(pm) => {
                let ghost prevm = self.decoded_msgs@;
                let val = pm.clone();
                self.decoded_msgs.insert(pm.decoded.msg_id, val);
                proof {
                    assert(self.decoded_msgs@ == prevm.insert(pm.decoded.msg_id, val));
                    assert(table_msgs_view(self.decoded_msgs@) =~= table_msgs_view(prevm).insert(
                        pm.decoded.msg_id,
                        pm@,
                    ));
                }
            },
        }
    }
}

} // verus!
