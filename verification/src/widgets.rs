use vstd::prelude::*;

use crate::bootloader::Bootloader;
use crate::can::message::pmsgs_view;
use crate::can::message::CanMessage;
use crate::ui::log_parser::LogParser;
use crate::ui::viewer_list::spec_list_insert;
use crate::ui::viewer_list::ViewerList;
use crate::ui::viewer_table::table_msgs_view;
use crate::ui::viewer_table::ViewerTable;

verus! {

/// One workspace widget's state. The plotting scope lives with the
/// graphical shell: its samples are floating point, which this
/// library does not hold.
pub enum Widget {
    ViewerTable(ViewerTable),
    ViewerList(ViewerList),
    Bootloader(Bootloader),
    LogParser(LogParser),
}

impl Widget {
    /// The widget's tab title.
    pub fn title(&self) -> (r: &str)
        ensures
            ({
                match self {
                    Widget::ViewerTable(w) => r@ == w.title@,
                    Widget::ViewerList(w) => r@ == w.title@,
                    Widget::Bootloader(w) => r@ == w.title@,
                    Widget::LogParser(w) => r@ == w.title@,
                }
            }),
    {
        match self {
            Widget::ViewerTable(w) => w.title.as_str(),
            Widget::ViewerList(w) => w.title.as_str(),
            Widget::Bootloader(w) => w.title.as_str(),
            Widget::LogParser(w) => w.title.as_str(),
        }
    }

    /// Hands one decoded message to the widgets that display traffic,
    /// each updating by its own rule; the others are left as they
    /// stand.
    pub fn handle_can_message(&mut self, msg: &CanMessage)
        ensures
            *old(self) matches Widget::ViewerTable(v0) ==> (*final(self) matches Widget::ViewerTable(
                v1,
            ) && v1.title == v0.title && v1.frozen_msgs == v0.frozen_msgs && v1.paused == v0.paused
                && v1.search == v0.search && (match msg {
                CanMessage::ParsedMessage(pm) => table_msgs_view(v1.decoded_msgs@)
                    == table_msgs_view(v0.decoded_msgs@).insert(pm.decoded.msg_id, pm@),
            })),
            *old(self) matches Widget::ViewerList(v0) ==> (*final(self) matches Widget::ViewerList(
                v1,
            ) && (v0.paused ==> v1 == v0) && (!v0.paused ==> v1.title == v0.title
                && v1.frozen_msgs == v0.frozen_msgs && v1.paused == v0.paused && (match msg {
                CanMessage::ParsedMessage(pm) => pmsgs_view(v1.decoded_msgs@) == spec_list_insert(
                    pmsgs_view(v0.decoded_msgs@),
                    pm@,
                ),
            }))),
            *old(self) is Bootloader ==> *final(self) == *old(self),
            *old(self) is LogParser ==> *final(self) == *old(self),
    {
        match self {
            Widget::ViewerTable(w) => w.handle_can_message(msg),
            Widget::ViewerList(w) => w.handle_can_message(msg),
            Widget::Bootloader(_) => {},
            Widget::LogParser(_) => {},
        }
    }
}

} // verus!
