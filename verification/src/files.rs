//! What is said of files that are dragged over the window and dropped on it.

use vstd::prelude::*;
use vstd::string::StringExecFns;
use crate::radix::append_digits;
use crate::radix::digits;

verus! {

/// A file that hovers over the window.
#[derive(Clone, Debug, PartialEq, Eq)]
pub struct HoveredFile {
    /// The path of the file as it is shown, where it is known.
    pub path: Option<String>,
    /// The MIME type of the file, or nothing.
    pub mime: String,
}

/// A file that was dropped on the window.
#[derive(Clone, Debug, PartialEq, Eq)]
pub struct DroppedFile {
    /// The path of the file as it is shown, where it is known.
    pub path: Option<String>,
    /// The name of the file, or nothing.
    pub name: String,
    /// The MIME type of the file, or nothing.
    pub mime: String,
    /// The number of bytes of the file, where its contents came with it.
    pub bytes: Option<usize>,
}

impl HoveredFile {
    /// What the file goes by: its path, else its type, else three question
    /// marks.
    pub open spec fn shown(self) -> Seq<char> {
        match self.path {
            Some(path) => path@,
            None => if self.mime@.len() > 0 {
                self.mime@
            } else {
                "???"@
            },
        }
    }
}

/// The lines of the first `n` files, each after a line break.
pub open spec fn hovered_lines(files: Seq<HoveredFile>, n: int) -> Seq<char>
    decreases n,
{
    if n <= 0 {
        Seq::<char>::empty()
    } else {
        hovered_lines(files, n - 1) + "\n"@ + files[n - 1].shown()
    }
}

/// The text shown while files hover over the window: a heading, an empty
/// line, and one line for each file.
pub open spec fn hovered_text(files: Seq<HoveredFile>) -> Seq<char> {
    "Dropping files:\n"@ + hovered_lines(files, files.len() as int)
}

/// Computes [`hovered_text`].
pub fn hovered_files_text(files: &Vec<HoveredFile>) -> (r: String)
    ensures
        r@ == hovered_text(files@),
{
    let mut text = String::from_str("Dropping files:\n");
    let mut i: usize = 0;
    assert(text@ =~= "Dropping files:\n"@ + hovered_lines(files@, 0));
    while i < files.len()
        invariant
            i <= files.len(),
            text@ == "Dropping files:\n"@ + hovered_lines(files@, i as int),
        decreases files.len() - i,
    {
        let file = &files[i];
        text.append("\n");
        match &file.path {
            Some(path) => text.append(path.as_str()),
            None => {
                if file.mime.as_str().unicode_len() > 0 {
                    text.append(file.mime.as_str());
                } else {
                    text.append("???");
                }
            },
        }
        i = i + 1;
        assert(text@ =~= "Dropping files:\n"@ + hovered_lines(files@, i as int));
    }
    text
}

impl DroppedFile {
    /// What the file goes by: its path, else its name, else three question
    /// marks.
    pub open spec fn shown(self) -> Seq<char> {
        match self.path {
            Some(path) => path@,
            None => if self.name@.len() > 0 {
                self.name@
            } else {
                "???"@
            },
        }
    }

    /// What is known of the file besides: its type and its size in bytes,
    /// separated by a comma.
    pub open spec fn details(self) -> Seq<char> {
        let kind = if self.mime@.len() > 0 {
            "type: "@ + self.mime@
        } else {
            Seq::<char>::empty()
        };
        match self.bytes {
            Some(count) => {
                let size = digits(count as nat, 10, false) + " bytes"@;
                if self.mime@.len() > 0 {
                    kind + ", "@ + size
                } else {
                    size
                }
            },
            None => kind,
        }
    }

    /// The line shown for the file: what it goes by and, in brackets, what is
    /// known of it besides, if anything.
    pub open spec fn described(self) -> Seq<char> {
        if self.mime@.len() > 0 || self.bytes.is_some() {
            self.shown() + " ("@ + self.details() + ")"@
        } else {
            self.shown()
        }
    }

    /// Computes [`DroppedFile::described`].
    pub fn info(&self) -> (r: String)
        ensures
            r@ == self.described(),
    {
        let mut info = match &self.path {
            Some(path) => path.clone(),
            None => {
                if self.name.as_str().unicode_len() > 0 {
                    self.name.clone()
                } else {
                    String::from_str("???")
                }
            },
        };
        let has_type = self.mime.as_str().unicode_len() > 0;
        if has_type || self.bytes.is_some() {
            info.append(" (");
            if has_type {
                info.append("type: ");
                info.append(self.mime.as_str());
            }
            match self.bytes {
                Some(count) => {
                    if has_type {
                        info.append(", ");
                    }
                    append_digits(&mut info, count as u64, 10, false);
                    info.append(" bytes");
                },
                None => {},
            }
            info.append(")");
            assert(info@ =~= self.described());
        }
        info
    }
}

} // verus!
