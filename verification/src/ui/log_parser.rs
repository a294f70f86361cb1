use vstd::prelude::*;

use crate::text::numbered_title;
use crate::text::spec_numbered;

verus! {

/// The log-parser widget's state: its numbered title and the three
/// paths the user has picked so far.
pub struct LogParser {
    pub title: String,
    pub dbc_path: Option<String>,
    pub logs_dir: Option<String>,
    pub output_dir: Option<String>,
}

impl LogParser {
    /// A log-parser widget with the next instance number in its
    /// title and no paths picked yet.
    pub fn new(instance_num: usize) -> (r: Self)
        ensures
            r.title@ == spec_numbered("Log Parser #"@, instance_num as nat),
            r.dbc_path is None,
            r.logs_dir is None,
            r.output_dir is None,
    {
        LogParser {
            title: numbered_title("Log Parser #", instance_num),
            dbc_path: None,
            logs_dir: None,
            output_dir: None,
        }
    }

    /// Remembers the definition file the user picked.
    pub fn select_dbc(&mut self, path: String)
        ensures
            final(self).dbc_path == Some(path),
            final(self).logs_dir == old(self).logs_dir,
            final(self).output_dir == old(self).output_dir,
            final(self).title == old(self).title,
    {
        self.dbc_path = Some(path);
    }

    /// Remembers the capture directory the user picked.
    pub fn select_logs_dir(&mut self, path: String)
        ensures
            final(self).logs_dir == Some(path),
            final(self).dbc_path == old(self).dbc_path,
            final(self).output_dir == old(self).output_dir,
            final(self).title == old(self).title,
    {
        self.logs_dir = Some(path);
    }

    /// Remembers the output directory the user picked.
    pub fn select_output_dir(&mut self, path: String)
        ensures
            final(self).output_dir == Some(path),
            final(self).dbc_path == old(self).dbc_path,
            final(self).logs_dir == old(self).logs_dir,
            final(self).title == old(self).title,
    {
        self.output_dir = Some(path);
    }

    /// Whether all three paths are picked, so parsing can start.
    pub fn ready_to_parse(&self) -> (r: bool)
        ensures
            r == (self.dbc_path is Some && self.logs_dir is Some && self.output_dir is Some),
    {
        self.dbc_path.is_some() && self.logs_dir.is_some() && self.output_dir.is_some()
    }
}

} // verus!
