//! Settings of the file sink, and its rotation decisions.
use vstd::prelude::*;
use crate::level::LevelFilter;
use crate::stamp::Stamp;
use crate::retention::{archive_name, prune_choice, prune_index, views};

verus! {

/// The file sink's threshold, directory, rotation size, retention count and
/// active file name.
#[derive(Debug)]
pub struct FileConfig {
    pub log_level: LevelFilter,
    pub path: String,
    pub max_file_size: u64,
    pub logs_to_keep: u32,
    pub log_name: String,
}

/// Whether an active file of `size` bytes is rotated under the limit `max`.
pub open spec fn rotation_due(max: int, size: int) -> bool {
    size > max
}

/// Bytes in the active file after the first `k` writes of `sizes`.
pub open spec fn written_after(sizes: Seq<nat>, k: int) -> int
    decreases k,
{
    if k <= 0 || sizes.len() == 0 {
        0
    } else {
        written_after(sizes, k - 1) + if k <= sizes.len() { sizes[k - 1] as int } else { 0 }
    }
}

proof fn lemma_written_monotone(sizes: Seq<nat>, k: int, l: int)
    requires
        0 <= k <= l <= sizes.len(),
    ensures
        written_after(sizes, k) <= written_after(sizes, l),
    decreases l - k,
{
    if k < l {
        lemma_written_monotone(sizes, k, l - 1);
    }
}

/// While the writes to a fresh active file add up to no more than
/// `max_file_size`, no write triggers a rotation.
pub proof fn lemma_no_rotation_within_limit(max: u64, sizes: Seq<nat>)
    requires
        written_after(sizes, sizes.len() as int) <= max,
    ensures
        forall|k: int|
            0 <= k <= sizes.len() ==> !rotation_due(max as int, #[trigger] written_after(sizes, k)),
{
    assert forall|k: int| 0 <= k <= sizes.len() implies !rotation_due(
        max as int,
        #[trigger] written_after(sizes, k),
    ) by {
        lemma_written_monotone(sizes, k, sizes.len() as int);
    }
}

/// The write that takes a fresh active file past `max_file_size` is the first
/// write after which a rotation is due.
pub proof fn lemma_rotation_at_crossing(max: u64, sizes: Seq<nat>, k: int)
    requires
        0 < k <= sizes.len(),
        written_after(sizes, k - 1) <= max,
        written_after(sizes, k) > max,
    ensures
        rotation_due(max as int, written_after(sizes, k)),
        forall|l: int| 0 <= l < k ==> !rotation_due(max as int, #[trigger] written_after(sizes, l)),
{
    assert forall|l: int| 0 <= l < k implies !rotation_due(
        max as int,
        #[trigger] written_after(sizes, l),
    ) by {
        lemma_written_monotone(sizes, l, k - 1);
    }
}

impl FileConfig {
    /// Threshold `Off`, directory `.`, rotation above 1 MiB, one archive kept,
    /// active file `log.log`.
    pub fn default() -> (r: FileConfig)
        ensures
            r.log_level == LevelFilter::Off,
            r.path@ == seq!['.'],
            r.max_file_size == 1024 * 1024,
            r.logs_to_keep == 1,
            r.log_name@ == seq!['l', 'o', 'g', '.', 'l', 'o', 'g'],
    {
        proof {
            reveal_strlit(".");
            reveal_strlit("log.log");
        }
        FileConfig {
            log_level: LevelFilter::Off,
            path: String::from_str("."),
            max_file_size: 1024 * 1024,
            logs_to_keep: 1,
            log_name: String::from_str("log.log"),
        }
    }

    pub fn max_file_size(self, file_size: u64) -> (r: FileConfig)
        ensures
            r == (FileConfig { max_file_size: file_size, ..self }),
    {
        FileConfig { max_file_size: file_size, ..self }
    }

    pub fn logs_to_keep(self, log_count: u32) -> (r: FileConfig)
        ensures
            r == (FileConfig { logs_to_keep: log_count, ..self }),
    {
        FileConfig { logs_to_keep: log_count, ..self }
    }

    pub fn log_name(self, log_name: &str) -> (r: FileConfig)
        ensures
            r.log_name@ == log_name@,
            r.log_level == self.log_level,
            r.path == self.path,
            r.max_file_size == self.max_file_size,
            r.logs_to_keep == self.logs_to_keep,
    {
        FileConfig { log_name: String::from_str(log_name), ..self }
    }

    pub fn log_level(self, log_level: LevelFilter) -> (r: FileConfig)
        ensures
            r == (FileConfig { log_level, ..self }),
    {
        FileConfig { log_level, ..self }
    }

    /// Whether an active file of `size` bytes is to be rotated.
    pub fn rotation_due(&self, size: u64) -> (r: bool)
        ensures
            r == rotation_due(self.max_file_size as int, size as int),
    {
        size > self.max_file_size
    }

    /// The name that the active file takes when it is archived at `st`.
    pub fn archive_name(&self, st: &Stamp) -> (r: String)
        requires
            st.valid(),
        ensures
            r@ == archive_name(*st, self.log_name@),
    {
        let mut r = st.to_text();
        r.append("-");
        r.append(self.log_name.as_str());
        proof {
            reveal_strlit("-");
        }
        r
    }

    /// After a write that left the active file at `size` bytes, at instant
    /// `st`, with `existing` the names in the directory: the archive name to
    /// rename the active file to, or `None` when no rotation is due or an
    /// archive of that name already exists (the rotation then waits for a
    /// later write).
    pub fn rotation_target(&self, size: u64, st: &Stamp, existing: &Vec<String>) -> (r: Option<
        String,
    >)
        requires
            st.valid(),
        ensures
            r is Some <==> rotation_due(self.max_file_size as int, size as int) && !(exists|j: int|
                0 <= j < existing@.len() && (#[trigger] existing@[j])@ == archive_name(
                    *st,
                    self.log_name@,
                )),
            r matches Some(n) ==> n@ == archive_name(*st, self.log_name@),
    {
        if !self.rotation_due(size) {
            return None;
        }
        let name = self.archive_name(st);
        let mut i: usize = 0;
        while i < existing.len()
            invariant
                i <= existing.len(),
                name@ == archive_name(*st, self.log_name@),
                forall|j: int| 0 <= j < i ==> (#[trigger] existing@[j])@ != name@,
            decreases existing.len() - i,
        {
            if crate::stamp::same_text(existing[i].as_str(), name.as_str()) {
                return None;
            }
            i = i + 1;
        }
        Some(name)
    }

    /// The position in a directory listing of the archive that retention
    /// removes after a rotation, if any.
    pub fn prune_target(&self, names: &Vec<String>) -> (r: Option<usize>)
        ensures
            r matches Some(i) ==> i < names.len(),
            r == (match prune_choice(views(names@), self.log_name@, self.logs_to_keep as int) {
                Some(i) => Some(i as usize),
                None => None,
            }),
    {
        prune_index(names, self.log_name.as_str(), self.logs_to_keep)
    }
}

} // verus!
