use vstd::prelude::*;
use crate::decimal::{decimal_of, Decimal};

verus! {

/// The loudness limit, in LKFS, that the window offers at first.
pub open spec fn default_limit_text() -> Seq<char> {
    "-14"@
}

/// What the window was asked to process.
#[derive(Clone, Debug, PartialEq, Eq)]
pub enum Job {
    File(String),
    Folder(String),
}

/// The settings that the window holds between frames.
#[derive(Debug)]
pub struct MainWindow {
    pub ffmpeg_path: String,
    pub selected_path: Option<String>,
    /// The loudness limit as typed; kept as text so that an empty field can be told apart.
    pub limitation: String,
    pub message: String,
    /// `file` or `folder`, after a selection.
    pub file_node_type: String,
}

impl MainWindow {
    pub fn new() -> (r: MainWindow)
        ensures
            r.ffmpeg_path@ == "Empty for ffmpeg in PATH"@,
            r.selected_path is None,
            r.limitation@ == default_limit_text(),
            r.message@.len() == 0,
            r.file_node_type@.len() == 0,
    {
        proof {
            reveal_strlit("Empty for ffmpeg in PATH");
            reveal_strlit("-14");
        }
        MainWindow {
            ffmpeg_path: String::from_str("Empty for ffmpeg in PATH"),
            selected_path: None,
            limitation: String::from_str("-14"),
            message: String::new(),
            file_node_type: String::new(),
        }
    }

    /// The limit to process with: an empty field first takes the default text;
    /// `None` where the field then holds no decimal.
    pub fn start_limit(&mut self) -> (r: Option<Decimal>)
        ensures
            final(self).ffmpeg_path == old(self).ffmpeg_path,
            final(self).selected_path == old(self).selected_path,
            final(self).message == old(self).message,
            final(self).file_node_type == old(self).file_node_type,
            final(self).limitation@ == if old(self).limitation@.len() == 0 {
                default_limit_text()
            } else {
                old(self).limitation@
            },
            r is None <==> decimal_of(final(self).limitation@) is None,
            r matches Some(d) ==> d.wf() && decimal_of(final(self).limitation@) == Some(d@),
    {
        if self.limitation.unicode_len() == 0 {
            self.limitation = String::from_str("-14");
            proof {
                reveal_strlit("-14");
            }
        }
        Decimal::parse(self.limitation.as_str())
    }

    /// The selected path, as a file or a folder to process after its node type;
    /// `None` where nothing, or nothing of a known type, was selected.
    pub fn job(&self) -> (r: Option<Job>)
        ensures
            r == match self.selected_path {
                None => None,
                Some(p) => if self.file_node_type@ == "file"@ {
                    Some(Job::File(p))
                } else if self.file_node_type@ == "folder"@ {
                    Some(Job::Folder(p))
                } else {
                    None
                },
            },
    {
        match &self.selected_path {
            None => None,
            Some(p) => {
                let file = String::from_str("file");
                let folder = String::from_str("folder");
                if self.file_node_type == file {
                    Some(Job::File(p.clone()))
                } else if self.file_node_type == folder {
                    Some(Job::Folder(p.clone()))
                } else {
                    None
                }
            },
        }
    }
}

} // verus!
