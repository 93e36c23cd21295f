//! The 8-channel file abstraction the interpreter's file built-ins use, and
//! its in-memory backend.
//!
//! A failed open, read or write never aborts the run: it sets the channel's
//! recoverable error flag, queryable through `ferr`, and the program decides
//! what to make of it. Only a channel index outside the 8 fixed slots is a
//! fatal error, and the interpreter rejects that before calling in here.

use vstd::prelude::*;
use vstd::string::StrSliceExecFns;
use vstd::string::StringExecFns;
use crate::errors::Error;
use crate::namemap::NameMap;

verus! {

/// The host-facing 8-channel file interface. A real-filesystem backend
/// lives with the host; the in-memory backend below is part of the library.
pub trait PCBoardIO {
    /// Opens a file for append access on a channel.
    fn fappend(&mut self, channel: usize, file: &String, am: i32, sm: i32)
        requires
            channel < 8,
    ;

    /// Creates a new, empty file on a channel.
    fn fcreate(&mut self, channel: usize, file: &String, am: i32, sm: i32)
        requires
            channel < 8,
    ;

    /// Opens an existing file on a channel for reading from the start.
    fn fopen(&mut self, channel: usize, file: &String, am: i32, sm: i32)
        requires
            channel < 8,
    ;

    /// Whether an error occurred on the channel since the last reset.
    fn ferr(&self, channel: usize) -> bool
        requires
            channel < 8,
    ;

    /// Writes text at the channel's position.
    fn fput(&mut self, channel: usize, text: String)
        requires
            channel < 8,
    ;

    /// Reads one line at the channel's position; returns the empty string
    /// on error and sets the channel's flag.
    fn fget(&mut self, channel: usize) -> String
        requires
            channel < 8,
    ;

    /// Moves the channel's position back to the start.
    fn frewind(&mut self, channel: usize)
        requires
            channel < 8,
    ;

    /// Closes the channel, clearing its error flag.
    fn fclose(&mut self, channel: usize)
        requires
            channel < 8,
    ;

    /// Whether a file of that name exists.
    fn file_exists(&self, file: &String) -> bool;

    /// Removes a file.
    fn delete(&mut self, file: &String) -> Result<(), Error>;

    /// Renames a file.
    fn rename(&mut self, old: &String, new: &String) -> Result<(), Error>;

    /// Copies a file.
    fn copy(&mut self, from: &String, to: &String) -> Result<(), Error>;

    /// The file's modification time, in seconds since the epoch.
    fn get_file_date(&self, file: &String) -> Result<u64, Error>;

    /// The file's size.
    fn get_file_size(&self, file: &String) -> u64;
}

/// One simulated channel: the open file's name, the character position, and
/// the recoverable error flag.
pub struct SimulatedFileChannel {
    pub file: Option<String>,
    pub filepos: usize,
    pub err: bool,
}

impl SimulatedFileChannel {
    /// A closed channel with a clear flag.
    pub fn new() -> (r: Self)
        ensures
            r.file is None,
            r.filepos == 0,
            !r.err,
    {
        SimulatedFileChannel { file: None, filepos: 0, err: false }
    }
}

/// The in-memory backend: named character-string blobs, for offline use and
/// testing. Positions count characters.
pub struct MemoryIO {
    pub channels: Vec<SimulatedFileChannel>,
    pub files: NameMap<String>,
}

/// The first newline at or after `p`, or the end of the content.
pub open spec fn line_end(s: Seq<char>, p: int) -> int
    decreases s.len() - p,
{
    if p < 0 || p >= s.len() {
        s.len() as int
    } else if s[p] == '\n' {
        p
    } else {
        line_end(s, p + 1)
    }
}

impl MemoryIO {
    /// The backend's channels always number 8.
    pub open spec fn wf(&self) -> bool {
        self.channels@.len() == 8
    }

    /// The state of one channel.
    pub open spec fn chan(&self, ch: int) -> SimulatedFileChannel {
        self.channels@[ch]
    }

    /// An empty backend: no files, all 8 channels closed and clear.
    pub fn new() -> (r: Self)
        ensures
            r.wf(),
            r.files@ == Map::<Seq<char>, String>::empty(),
            forall|ch: int|
                0 <= ch < 8 ==> (#[trigger] r.chan(ch)).file is None && !r.chan(ch).err
                    && r.chan(ch).filepos == 0,
    {
        let mut channels: Vec<SimulatedFileChannel> = Vec::new();
        let mut i: usize = 0;
        while i < 8
            invariant
                channels@.len() == i,
                i <= 8,
                forall|ch: int|
                    0 <= ch < i ==> (#[trigger] channels@[ch]).file is None && !channels@[ch].err
                        && channels@[ch].filepos == 0,
            decreases 8 - i,
        {
            channels.push(SimulatedFileChannel::new());
            i = i + 1;
        }
        MemoryIO { channels, files: NameMap::new() }
    }

    /// Opens a channel onto an existing blob at position zero; a missing
    /// file leaves the channel closed with its error flag set.
    pub fn fopen(&mut self, channel: usize, file: &String)
        requires
            old(self).wf(),
            channel < 8,
        ensures
            final(self).wf(),
            final(self).files@ == old(self).files@,
            forall|ch: int|
                0 <= ch < 8 && ch != channel ==> #[trigger] final(self).chan(ch) == old(self).chan(ch),
            old(self).files@.contains_key(file@) ==> final(self).chan(channel as int)
                == (SimulatedFileChannel { file: Some(*file), filepos: 0, err: false }),
            !old(self).files@.contains_key(file@) ==> final(self).chan(channel as int) == (
            SimulatedFileChannel { file: None, filepos: 0, err: true }),
    {
        if self.files.contains(file) {
            self.channels[channel] = SimulatedFileChannel {
                file: Some(file.clone()),
                filepos: 0,
                err: false,
            };
        } else {
            self.channels[channel] = SimulatedFileChannel { file: None, filepos: 0, err: true };
        }
    }

    /// Creates an empty blob (truncating an existing one) and opens the
    /// channel onto it at position zero.
    pub fn fcreate(&mut self, channel: usize, file: &String)
        requires
            old(self).wf(),
            channel < 8,
        ensures
            final(self).wf(),
            final(self).files@.dom() == old(self).files@.dom().insert(file@),
            final(self).files@[file@]@ == Seq::<char>::empty(),
            forall|k: Seq<char>|
                old(self).files@.contains_key(k) && k != file@ ==> #[trigger] final(self).files@[k] == old(self).files@[k],
            forall|ch: int|
                0 <= ch < 8 && ch != channel ==> #[trigger] final(self).chan(ch) == old(self).chan(ch),
            final(self).chan(channel as int) == (SimulatedFileChannel {
                file: Some(*file),
                filepos: 0,
                err: false,
            }),
    {
        self.files.insert(file.clone(), String::new());
        self.channels[channel] = SimulatedFileChannel {
            file: Some(file.clone()),
            filepos: 0,
            err: false,
        };
        proof {
            assert(self.files@.dom() =~= old(self).files@.dom().insert(file@));
        }
    }

    /// Opens a channel onto a blob for appending: the position starts at
    /// the content's end; a missing file is created empty.
    pub fn fappend(&mut self, channel: usize, file: &String)
        requires
            old(self).wf(),
            channel < 8,
        ensures
            final(self).wf(),
            final(self).files@.dom() == old(self).files@.dom().insert(file@),
            forall|k: Seq<char>|
                old(self).files@.contains_key(k) ==> #[trigger] final(self).files@[k] == old(
                    self,
                ).files@[k],
            !old(self).files@.contains_key(file@) ==> final(self).files@[file@]@
                == Seq::<char>::empty(),
            forall|ch: int|
                0 <= ch < 8 && ch != channel ==> #[trigger] final(self).chan(ch) == old(self).chan(ch),
            final(self).chan(channel as int).file == Some(*file),
            !final(self).chan(channel as int).err,
            final(self).chan(channel as int).filepos as int == final(self).files@[file@]@.len(),
    {
        let mut filepos: usize = 0;
        match self.files.get(file) {
            Some(v) => {
                filepos = v.as_str().unicode_len();
            },
            None => {
                self.files.insert(file.clone(), String::new());
            },
        }
        self.channels[channel] = SimulatedFileChannel {
            file: Some(file.clone()),
            filepos,
            err: false,
        };
        proof {
            assert(self.files@.dom() =~= old(self).files@.dom().insert(file@));
        }
    }

    /// The channel's recoverable error flag.
    pub fn ferr(&self, channel: usize) -> (r: bool)
        requires
            self.wf(),
            channel < 8,
        ensures
            r == self.chan(channel as int).err,
    {
        self.channels[channel].err
    }

    /// Writes text into the open blob at the channel's position (clamped to
    /// the content) and advances the position by the text's length; a
    /// channel without an open file, or whose file is gone, gets its error
    /// flag set instead.
    pub fn fput(&mut self, channel: usize, text: String)
        requires
            old(self).wf(),
            channel < 8,
        ensures
            final(self).wf(),
            forall|ch: int|
                0 <= ch < 8 && ch != channel ==> #[trigger] final(self).chan(ch) == old(self).chan(ch),
            match old(self).chan(channel as int).file {
                Some(f) => {
                    if old(self).files@.contains_key(f@) {
                        let content = old(self).files@[f@]@;
                        let p = if old(self).chan(channel as int).filepos as int <= content.len() {
                            old(self).chan(channel as int).filepos as int
                        } else {
                            content.len() as int
                        };
                        &&& final(self).files@.dom() == old(self).files@.dom()
                        &&& final(self).files@[f@]@ == content.subrange(0, p) + text@
                            + content.subrange(p, content.len() as int)
                        &&& (forall|k: Seq<char>|
                            old(self).files@.contains_key(k) && k != f@ ==> #[trigger] final(self).files@[k] == old(self).files@[k])
                        &&& final(self).chan(channel as int).file == Some(f)
                        &&& final(self).chan(channel as int).filepos as int == (if p + text@.len()
                            <= usize::MAX {
                            p + text@.len()
                        } else {
                            usize::MAX as int
                        })
                        &&& final(self).chan(channel as int).err == old(self).chan(
                            channel as int,
                        ).err
                    } else {
                        &&& final(self).files@ == old(self).files@
                        &&& final(self).chan(channel as int).err
                    }
                },
                None => {
                    &&& final(self).files@ == old(self).files@
                    &&& final(self).chan(channel as int).err
                },
            },
    {
        let has_file = self.channels[channel].file.is_some();
        if !has_file {
            self.channels[channel] = SimulatedFileChannel { file: None, filepos: 0, err: true };
            return ;
        }
        let fname = match &self.channels[channel].file {
            Some(f) => f.clone(),
            None => String::new(),
        };
        let known = self.files.contains(&fname);
        if !known {
            let was_pos = self.channels[channel].filepos;
            self.channels[channel] = SimulatedFileChannel {
                file: Some(fname),
                filepos: was_pos,
                err: true,
            };
            return ;
        }
        let content: String = match self.files.get(&fname) {
            Some(v) => v.clone(),
            None => String::new(),
        };
        let n = content.as_str().unicode_len();
        let was_pos = self.channels[channel].filepos;
        let p = if was_pos <= n {
            was_pos
        } else {
            n
        };
        let text_len = text.as_str().unicode_len();
        let mut updated = content.as_str().substring_char(0, p).to_owned();
        updated.append(text.as_str());
        updated.append(content.as_str().substring_char(p, n));
        proof {
            let c = content@;
            assert(updated@ =~= c.subrange(0, p as int) + text@ + c.subrange(
                p as int,
                c.len() as int,
            ));
        }
        self.files.insert(fname.clone(), updated);
        let was_err = self.channels[channel].err;
        let new_pos: usize = if text_len <= usize::MAX - p {
            p + text_len
        } else {
            usize::MAX
        };
        self.channels[channel] = SimulatedFileChannel {
            file: Some(fname),
            filepos: new_pos,
            err: was_err,
        };
        proof {
            assert(self.files@.dom() =~= old(self).files@.dom());
        }
    }

    /// Reads one line at the channel's position: the characters up to the
    /// next newline, which is skipped. At or past the end of the content
    /// the flag is set and the empty string returned; likewise on a channel
    /// without an open file.
    pub fn fget(&mut self, channel: usize) -> (r: String)
        requires
            old(self).wf(),
            channel < 8,
        ensures
            final(self).wf(),
            final(self).files@ == old(self).files@,
            forall|ch: int|
                0 <= ch < 8 && ch != channel ==> #[trigger] final(self).chan(ch) == old(self).chan(ch),
            match old(self).chan(channel as int).file {
                Some(f) => {
                    if old(self).files@.contains_key(f@) {
                        let content = old(self).files@[f@]@;
                        let p = old(self).chan(channel as int).filepos as int;
                        if p >= content.len() {
                            &&& r@ == Seq::<char>::empty()
                            &&& final(self).chan(channel as int) == (SimulatedFileChannel {
                                err: true,
                                ..old(self).chan(channel as int)
                            })
                        } else {
                            let end = line_end(content, p);
                            &&& r@ == content.subrange(p, end)
                            &&& final(self).chan(channel as int).file == Some(f)
                            &&& final(self).chan(channel as int).err == old(self).chan(
                                channel as int,
                            ).err
                            &&& final(self).chan(channel as int).filepos as int == (if end
                                < content.len() {
                                end + 1
                            } else {
                                end
                            })
                        }
                    } else {
                        &&& r@ == Seq::<char>::empty()
                        &&& final(self).chan(channel as int).err
                    }
                },
                None => {
                    &&& r@ == Seq::<char>::empty()
                    &&& final(self).chan(channel as int).err
                },
            },
    {
        let has_file = self.channels[channel].file.is_some();
        if !has_file {
            let was_pos = self.channels[channel].filepos;
            self.channels[channel] = SimulatedFileChannel {
                file: None,
                filepos: was_pos,
                err: true,
            };
            return String::new();
        }
        let fname = match &self.channels[channel].file {
            Some(f) => f.clone(),
            None => String::new(),
        };
        let known = self.files.contains(&fname);
        if !known {
            let was_pos = self.channels[channel].filepos;
            self.channels[channel] = SimulatedFileChannel {
                file: Some(fname),
                filepos: was_pos,
                err: true,
            };
            return String::new();
        }
        let content: String = match self.files.get(&fname) {
            Some(v) => v.clone(),
            None => String::new(),
        };
        let n = content.as_str().unicode_len();
        let p = self.channels[channel].filepos;
        if p >= n {
            let was_pos = self.channels[channel].filepos;
            self.channels[channel] = SimulatedFileChannel {
                file: Some(fname),
                filepos: was_pos,
                err: true,
            };
            return String::new();
        }
        let mut i: usize = p;
        while i < n && content.as_str().get_char(i) != '\n'
            invariant
                n == content@.len(),
                p <= i <= n,
                line_end(content@, p as int) == line_end(content@, i as int),
            decreases n - i,
        {
            i = i + 1;
        }
        proof {
            assert(line_end(content@, i as int) == i as int);
        }
        let line = content.as_str().substring_char(p, i).to_owned();
        let new_pos: usize = if i < n {
            i + 1
        } else {
            i
        };
        let was_err = self.channels[channel].err;
        self.channels[channel] = SimulatedFileChannel {
            file: Some(fname),
            filepos: new_pos,
            err: was_err,
        };
        line
    }

    /// Moves an open channel's position back to zero; on a channel without
    /// an open file, sets the error flag.
    pub fn frewind(&mut self, channel: usize)
        requires
            old(self).wf(),
            channel < 8,
        ensures
            final(self).wf(),
            final(self).files@ == old(self).files@,
            forall|ch: int|
                0 <= ch < 8 && ch != channel ==> #[trigger] final(self).chan(ch) == old(self).chan(ch),
            match old(self).chan(channel as int).file {
                Some(f) => final(self).chan(channel as int) == (SimulatedFileChannel {
                    filepos: 0,
                    ..old(self).chan(channel as int)
                }),
                None => final(self).chan(channel as int) == (SimulatedFileChannel {
                    file: None,
                    filepos: 0,
                    err: true,
                }),
            },
    {
        let has_file = self.channels[channel].file.is_some();
        if has_file {
            let was = self.channels[channel].err;
            let fname = match &self.channels[channel].file {
                Some(f) => f.clone(),
                None => String::new(),
            };
            self.channels[channel] = SimulatedFileChannel {
                file: Some(fname),
                filepos: 0,
                err: was,
            };
        } else {
            self.channels[channel] = SimulatedFileChannel { file: None, filepos: 0, err: true };
        }
    }

    /// Closes the channel and clears its error flag.
    pub fn fclose(&mut self, channel: usize)
        requires
            old(self).wf(),
            channel < 8,
        ensures
            final(self).wf(),
            final(self).files@ == old(self).files@,
            forall|ch: int|
                0 <= ch < 8 && ch != channel ==> #[trigger] final(self).chan(ch) == old(self).chan(ch),
            final(self).chan(channel as int) == (SimulatedFileChannel {
                file: None,
                filepos: 0,
                err: false,
            }),
    {
        self.channels[channel] = SimulatedFileChannel { file: None, filepos: 0, err: false };
    }

    /// Whether a blob of that name exists.
    pub fn file_exists(&self, file: &String) -> (r: bool)
        ensures
            r == self.files@.contains_key(file@),
    {
        self.files.contains(file)
    }

    /// Removes a blob; removing a missing one succeeds.
    pub fn delete(&mut self, file: &String)
        ensures
            final(self).channels@ == old(self).channels@,
            final(self).files@ == old(self).files@.remove(file@),
    {
        self.files.remove(file);
    }

    /// Renames a blob; a missing source leaves everything alone.
    pub fn rename(&mut self, old_name: &String, new_name: &String)
        ensures
            final(self).channels@ == old(self).channels@,
            match old(self).files@.contains_key(old_name@) {
                true => final(self).files@ == old(self).files@.remove(old_name@).insert(
                    new_name@,
                    old(self).files@[old_name@],
                ),
                false => final(self).files@ == old(self).files@,
            },
    {
        let content: Option<String> = match self.files.get(old_name) {
            Some(v) => Some(v.clone()),
            None => None,
        };
        match content {
            Some(v) => {
                self.files.remove(old_name);
                self.files.insert(new_name.clone(), v);
            },
            None => {},
        }
    }

    /// Copies a blob; a missing source leaves everything alone.
    pub fn copy(&mut self, from: &String, to: &String)
        ensures
            final(self).channels@ == old(self).channels@,
            match old(self).files@.contains_key(from@) {
                true => final(self).files@ == old(self).files@.insert(
                    to@,
                    old(self).files@[from@],
                ),
                false => final(self).files@ == old(self).files@,
            },
    {
        let content: Option<String> = match self.files.get(from) {
            Some(v) => Some(v.clone()),
            None => None,
        };
        match content {
            Some(v) => {
                self.files.insert(to.clone(), v);
            },
            None => {},
        }
    }

    /// The blob's size in characters; zero for a missing blob.
    pub fn get_file_size(&self, file: &String) -> (r: u64)
        ensures
            self.files@.contains_key(file@) ==> r as int == self.files@[file@]@.len(),
            !self.files@.contains_key(file@) ==> r == 0,
    {
        match self.files.get(file) {
            Some(v) => {
                let l = v.as_str().unicode_len();
                l as u64
            },
            None => 0,
        }
    }
}

impl PCBoardIO for MemoryIO {
    fn fappend(&mut self, channel: usize, file: &String, am: i32, sm: i32) {
        if channel < 8 && self.channels.len() == 8 {
            MemoryIO::fappend(self, channel, file);
        }
    }

    fn fcreate(&mut self, channel: usize, file: &String, am: i32, sm: i32) {
        if channel < 8 && self.channels.len() == 8 {
            MemoryIO::fcreate(self, channel, file);
        }
    }

    fn fopen(&mut self, channel: usize, file: &String, am: i32, sm: i32) {
        if channel < 8 && self.channels.len() == 8 {
            MemoryIO::fopen(self, channel, file);
        }
    }

    fn ferr(&self, channel: usize) -> bool {
        if channel < 8 && self.channels.len() == 8 {
            MemoryIO::ferr(self, channel)
        } else {
            true
        }
    }

    fn fput(&mut self, channel: usize, text: String) {
        if channel < 8 && self.channels.len() == 8 {
            MemoryIO::fput(self, channel, text);
        }
    }

    fn fget(&mut self, channel: usize) -> String {
        if channel < 8 && self.channels.len() == 8 {
            MemoryIO::fget(self, channel)
        } else {
            String::new()
        }
    }

    fn frewind(&mut self, channel: usize) {
        if channel < 8 && self.channels.len() == 8 {
            MemoryIO::frewind(self, channel);
        }
    }

    fn fclose(&mut self, channel: usize) {
        if channel < 8 && self.channels.len() == 8 {
            MemoryIO::fclose(self, channel);
        }
    }

    fn file_exists(&self, file: &String) -> bool {
        MemoryIO::file_exists(self, file)
    }

    fn delete(&mut self, file: &String) -> Result<(), Error> {
        MemoryIO::delete(self, file);
        Ok(())
    }

    fn rename(&mut self, old: &String, new: &String) -> Result<(), Error> {
        MemoryIO::rename(self, old, new);
        Ok(())
    }

    fn copy(&mut self, from: &String, to: &String) -> Result<(), Error> {
        MemoryIO::copy(self, from, to);
        Ok(())
    }

    fn get_file_date(&self, file: &String) -> Result<u64, Error> {
        Ok(0)
    }

    fn get_file_size(&self, file: &String) -> u64 {
        MemoryIO::get_file_size(self, file)
    }
}

} // verus!
