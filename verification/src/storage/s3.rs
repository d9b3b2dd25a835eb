//! Uploads of a finished session to object storage.

use crate::session::gate::{s3_prefix, storage_prefix};
use crate::text::{owned, same_text};
use vstd::prelude::*;
use vstd::string::*;

verus! {

/// A file below the directory of a session.
pub struct SessionFile {
    /// The path below the directory.
    pub relative: String,
    /// What stands behind the last dot of the name, as far as it is text.
    pub extension: Option<String>,
    pub is_file: bool,
}

/// The extension of a file is `ext`.
pub open spec fn has_extension(f: SessionFile, ext: Seq<char>) -> bool {
    f.extension is Some && f.extension->0@ == ext
}

/// Raw audio is not uploaded, nor what is no file.
pub open spec fn is_uploaded(f: SessionFile) -> bool {
    f.is_file && !has_extension(f, "pcm"@)
}

/// Where a file goes.
pub open spec fn object_key(guild_id: u64, session_id: Seq<char>, relative: Seq<char>) -> Seq<char> {
    storage_prefix(guild_id, session_id) + "/"@ + relative
}

/// What a file is declared as.
pub open spec fn type_of(f: SessionFile) -> Seq<char> {
    if has_extension(f, "json"@) {
        "application/json"@
    } else if has_extension(f, "flac"@) {
        "audio/flac"@
    } else if has_extension(f, "md"@) {
        "text/markdown"@
    } else {
        "application/octet-stream"@
    }
}

fn extension_is(f: &SessionFile, ext: &str) -> (b: bool)
    ensures
        b == has_extension(*f, ext@),
{
    match &f.extension {
        Some(e) => same_text(e.as_str(), ext),
        None => false,
    }
}

/// What a file is declared as.
pub fn content_type(f: &SessionFile) -> (t: &'static str)
    ensures
        t@ == type_of(*f),
{
    if extension_is(f, "json") {
        "application/json"
    } else if extension_is(f, "flac") {
        "audio/flac"
    } else if extension_is(f, "md") {
        "text/markdown"
    } else {
        "application/octet-stream"
    }
}

/// A file that is to be uploaded.
pub struct Put {
    pub relative: String,
    pub key: String,
    pub content_type: &'static str,
}

impl Put {
    pub open spec fn uploads(self, f: SessionFile, guild_id: u64, session_id: Seq<char>) -> bool {
        &&& self.relative@ == f.relative@
        &&& self.key@ == object_key(guild_id, session_id, f.relative@)
        &&& self.content_type@ == type_of(f)
    }
}

/// The files that are uploaded, in order.
pub open spec fn uploaded(files: Seq<SessionFile>) -> Seq<SessionFile> {
    files.filter(|f: SessionFile| is_uploaded(f))
}

/// What is uploaded of the files of a session, in the order of the files.
pub fn upload_plan(files: &Vec<SessionFile>, guild_id: u64, session_id: &str) -> (plan: Vec<Put>)
    ensures
        plan@.len() == uploaded(files@).len(),
        forall|i: int|
            0 <= i < plan@.len() ==> (#[trigger] plan@[i]).uploads(
                uploaded(files@)[i],
                guild_id,
                session_id@,
            ),
{
    broadcast use vstd::seq_lib::group_filter_ensures;

    let ghost want = |f: SessionFile| is_uploaded(f);
    let prefix = s3_prefix(guild_id, session_id);
    let mut plan: Vec<Put> = Vec::new();
    let mut i: usize = 0;
    assert(files@.take(0) =~= seq![]);
    proof {
        reveal(Seq::filter);
    }
    while i < files.len()
        invariant
            0 <= i <= files@.len(),
            want == (|f: SessionFile| is_uploaded(f)),
            prefix@ == storage_prefix(guild_id, session_id@),
            plan@.len() == files@.take(i as int).filter(want).len(),
            forall|j: int|
                0 <= j < plan@.len() ==> (#[trigger] plan@[j]).uploads(
                    files@.take(i as int).filter(want)[j],
                    guild_id,
                    session_id@,
                ),
        decreases files@.len() - i,
    {
        let f = &files[i];
        let ghost before = files@.take(i as int).filter(want);
        proof {
            reveal(Seq::filter);
            assert(files@.take(i + 1).drop_last() =~= files@.take(i as int));
            assert(files@.take(i + 1).last() == files@[i as int]);
            assert(files@.take(i + 1).filter(want) == (if is_uploaded(files@[i as int]) {
                before.push(files@[i as int])
            } else {
                before
            }));
        }
        if f.is_file && !extension_is(f, "pcm") {
            let mut key = owned(prefix.as_str());
            key.append("/");
            key.append(f.relative.as_str());
            plan.push(
                Put {
                    relative: owned(f.relative.as_str()),
                    key,
                    content_type: content_type(f),
                },
            );
        }
        i = i + 1;
    }
    assert(files@.take(files@.len() as int) =~= files@);
    plan
}

/// How often an upload is tried.
pub const MAX_ATTEMPTS: u32 = 3;

/// The pause after a failed attempt, in seconds: twice as long each time. After
/// the last attempt there is none.
pub open spec fn pause_after(attempt: u32) -> Option<u64> {
    if attempt < MAX_ATTEMPTS {
        Some(vstd::arithmetic::power2::pow2((attempt - 1) as nat) as u64)
    } else {
        None
    }
}

/// What comes after an attempt.
#[derive(Debug, Clone, Copy, PartialEq, Eq, Structural)]
pub enum AfterAttempt {
    /// On to the next file.
    Next,
    /// Try the same file again after a pause.
    Retry { secs: u64 },
    /// The upload has failed.
    Failed,
}

/// An upload of several files, one after the other.
#[derive(Debug, Clone, Copy, PartialEq, Eq, Structural)]
pub struct SessionUpload {
    /// How many files there are.
    pub count: usize,
    /// How many are uploaded.
    pub uploaded: usize,
    /// The attempt at the next file, counted from one.
    pub attempt: u32,
}

impl SessionUpload {
    pub open spec fn wf(self) -> bool {
        self.uploaded <= self.count && 1 <= self.attempt <= MAX_ATTEMPTS
    }

    /// How many attempts can still be made.
    pub open spec fn attempts_left(self) -> int {
        (self.count - self.uploaded) * MAX_ATTEMPTS - (self.attempt - 1)
    }

    /// Nothing is uploaded yet.
    pub fn new(count: usize) -> (u: SessionUpload)
        ensures
            u == (SessionUpload { count, uploaded: 0, attempt: 1 }),
            u.wf(),
    {
        SessionUpload { count, uploaded: 0, attempt: 1 }
    }

    /// The file to upload next; `None` when all are uploaded.
    pub fn next(&self) -> (i: Option<usize>)
        requires
            self.wf(),
        ensures
            i == (if self.uploaded < self.count {
                Some(self.uploaded)
            } else {
                None
            }),
    {
        if self.uploaded < self.count {
            Some(self.uploaded)
        } else {
            None
        }
    }

    /// An attempt was made.
    pub fn on_outcome(&mut self, ok: bool) -> (after: AfterAttempt)
        requires
            old(self).wf(),
            old(self).uploaded < old(self).count,
        ensures
            final(self).wf(),
            ok ==> after is Next && *final(self) == (SessionUpload {
                uploaded: (old(self).uploaded + 1) as usize,
                attempt: 1,
                ..*old(self)
            }),
            !ok ==> match pause_after(old(self).attempt) {
                Some(secs) => after == (AfterAttempt::Retry { secs }) && *final(self) == (
                SessionUpload { attempt: (old(self).attempt + 1) as u32, ..*old(self) }),
                None => after is Failed && *final(self) == *old(self),
            },
            !(after is Failed) ==> final(self).attempts_left() < old(self).attempts_left(),
    {
        proof {
            vstd::arithmetic::power2::lemma2_to64();
        }
        if ok {
            self.uploaded = self.uploaded + 1;
            self.attempt = 1;
            AfterAttempt::Next
        } else if self.attempt >= MAX_ATTEMPTS {
            AfterAttempt::Failed
        } else {
            let secs: u64 = if self.attempt == 1 {
                1
            } else {
                2
            };
            self.attempt = self.attempt + 1;
            AfterAttempt::Retry { secs }
        }
    }
}

} // verus!
