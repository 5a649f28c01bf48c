//! The log sink: its fixed configuration and a model of the rotating
//! pipeline it drives.
//!
//! The shell configures one rotation policy and two concrete targets: a
//! file named `app` inside a `logs` folder, and standard output. Every
//! emitted record is fanned out to every target in emission order. The
//! file target rotates: when the active file reaches the configured
//! maximum size, its content becomes the single retained backup — the
//! previous backup, if any, is overwritten — and the active file restarts
//! empty.

use vstd::prelude::*;
use vstd::string::StringExecFns;

verus! {

/// The rotation threshold of the active log file, in bytes.
pub const MAX_LOG_FILE_SIZE: u64 = 5_000_000;

/// One destination for log records.
pub enum LogTarget {
    /// A file named `file_name` inside the directory `path`.
    Folder { path: String, file_name: String },
    /// The standard-output stream.
    Stdout,
}

/// The sink configuration: one rotation policy (keep exactly one rotated
/// backup) and the list of active targets.
pub struct LogConfig {
    /// Size at which the active file is archived, in bytes.
    pub max_file_size: u64,
    /// Every record is written to every target listed here.
    pub targets: Vec<LogTarget>,
}

/// The configuration the shell installs: rotation at `MAX_LOG_FILE_SIZE`
/// bytes, a `logs/app` file target, and a standard-output target.
pub fn default_log_config() -> (c: LogConfig)
    ensures
        c.max_file_size == MAX_LOG_FILE_SIZE,
        c.targets@.len() == 2,
        (c.targets@[0] matches LogTarget::Folder { path, file_name } && path@ == "logs"@
            && file_name@ == "app"@),
        c.targets@[1] is Stdout,
{
    let folder = LogTarget::Folder {
        path: String::from_str("logs"),
        file_name: String::from_str("app"),
    };
    let mut targets: Vec<LogTarget> = Vec::new();
    targets.push(folder);
    targets.push(LogTarget::Stdout);
    LogConfig { max_file_size: MAX_LOG_FILE_SIZE, targets }
}

/// The ghost image of the pipeline: what each target has received and
/// what the rotating file currently holds. Records are byte strings.
#[verifier::ext_equal]
pub ghost struct PipelineModel {
    /// The rotation threshold, in bytes.
    pub max_file_size: int,
    /// Records now in the active file, in emission order.
    pub active: Seq<Seq<u8>>,
    /// Total size of the active file, in bytes.
    pub active_bytes: int,
    /// Records in the single retained backup, if one exists.
    pub backup: Option<Seq<Seq<u8>>>,
    /// Every record the standard-output target has received.
    pub stdout: Seq<Seq<u8>>,
    /// Every record the file target has received, across rotations.
    pub file_history: Seq<Seq<u8>>,
}

/// Total byte size of a sequence of records.
pub open spec fn sum_bytes(records: Seq<Seq<u8>>) -> int
    decreases records.len(),
{
    if records.len() == 0 {
        0
    } else {
        sum_bytes(records.drop_last()) + records.last().len()
    }
}

impl PipelineModel {
    /// What the rotating file holds on disk: the backup, then the active
    /// file.
    pub open spec fn on_disk(self) -> Seq<Seq<u8>> {
        (match self.backup {
            Some(b) => b,
            None => Seq::empty(),
        }) + self.active
    }

    /// The pipeline invariant: sizes add up, the active file is below the
    /// threshold, both targets have received the same records in the same
    /// order, and what is on disk is the tail of what the file target
    /// received.
    pub open spec fn inv(self) -> bool {
        &&& self.max_file_size > 0
        &&& self.active_bytes == sum_bytes(self.active)
        &&& 0 <= self.active_bytes < self.max_file_size
        &&& self.stdout == self.file_history
        &&& self.on_disk().is_suffix_of(self.file_history)
    }
}

/// A pipeline that has emitted nothing yet.
pub open spec fn fresh_model(max_file_size: int) -> PipelineModel {
    PipelineModel {
        max_file_size: max_file_size,
        active: Seq::empty(),
        active_bytes: 0,
        backup: None,
        stdout: Seq::empty(),
        file_history: Seq::empty(),
    }
}

/// What one emission does: the record is fanned out to both targets and
/// appended to the active file; if the file thereby reaches the
/// threshold, the whole active content becomes the sole backup —
/// overwriting any previous backup — and the active file restarts empty.
pub open spec fn emit_step(m: PipelineModel, record: Seq<u8>) -> PipelineModel {
    let grown = m.active.push(record);
    let grown_bytes = m.active_bytes + record.len();
    if grown_bytes >= m.max_file_size {
        PipelineModel {
            max_file_size: m.max_file_size,
            active: Seq::empty(),
            active_bytes: 0,
            backup: Some(grown),
            stdout: m.stdout.push(record),
            file_history: m.file_history.push(record),
        }
    } else {
        PipelineModel {
            max_file_size: m.max_file_size,
            active: grown,
            active_bytes: grown_bytes,
            backup: m.backup,
            stdout: m.stdout.push(record),
            file_history: m.file_history.push(record),
        }
    }
}

/// A whole run: the records emitted one after the other.
pub open spec fn emit_all(m: PipelineModel, records: Seq<Seq<u8>>) -> PipelineModel
    decreases records.len(),
{
    if records.len() == 0 {
        m
    } else {
        emit_all(emit_step(m, records[0]), records.skip(1))
    }
}

/// A suffix, extended by the same new element as the whole, stays a
/// suffix.
proof fn lemma_suffix_extend(h: Seq<Seq<u8>>, s: Seq<Seq<u8>>, r: Seq<u8>)
    requires
        s.is_suffix_of(h),
    ensures
        s.push(r).is_suffix_of(h.push(r)),
{
    assert(s.push(r) =~= h.push(r).subrange(h.len() - s.len(), h.len() as int + 1));
}

/// The tail of a suffix is itself a suffix.
proof fn lemma_suffix_drop(h: Seq<Seq<u8>>, a: Seq<Seq<u8>>, b: Seq<Seq<u8>>)
    requires
        (a + b).is_suffix_of(h),
    ensures
        b.is_suffix_of(h),
{
    let k = h.len() - (a + b).len();
    assert(a + b == h.subrange(k, h.len() as int));
    assert forall|j: int| 0 <= j < b.len() implies b[j] == h[h.len() - b.len() + j] by {
        assert((a + b)[a.len() + j] == b[j]);
        assert(h.subrange(k, h.len() as int)[a.len() + j] == h[k + a.len() + j]);
    }
    assert(b =~= h.subrange(h.len() - b.len(), h.len() as int));
}

/// One emission preserves the pipeline invariant.
pub proof fn lemma_emit_step_inv(m: PipelineModel, record: Seq<u8>)
    requires
        m.inv(),
    ensures
        emit_step(m, record).inv(),
{
    let grown = m.active.push(record);
    let hp = m.file_history.push(record);
    let backup_records = (match m.backup {
        Some(b) => b,
        None => Seq::<Seq<u8>>::empty(),
    });
    assert(grown.drop_last() =~= m.active);
    assert(sum_bytes(grown) == m.active_bytes + record.len());
    let m2 = emit_step(m, record);
    if m.active_bytes + record.len() >= m.max_file_size {
        assert(sum_bytes(Seq::<Seq<u8>>::empty()) == 0);
        lemma_suffix_drop(m.file_history, backup_records, m.active);
        lemma_suffix_extend(m.file_history, m.active, record);
        assert(m2.on_disk() =~= grown);
        assert(m2.on_disk().is_suffix_of(hp));
    } else {
        lemma_suffix_extend(m.file_history, m.on_disk(), record);
        assert(m2.on_disk() =~= m.on_disk().push(record));
        assert(m2.on_disk().is_suffix_of(hp));
    }
}

/// Law: every record emitted appears in both the file target and the
/// standard-output target, in the same relative emission order. Over any
/// run, each target receives exactly the emitted records, in order.
pub proof fn lemma_fanout_run(m: PipelineModel, records: Seq<Seq<u8>>)
    requires
        m.inv(),
    ensures
        emit_all(m, records).inv(),
        emit_all(m, records).file_history == m.file_history + records,
        emit_all(m, records).stdout == m.stdout + records,
    decreases records.len(),
{
    if records.len() == 0 {
        assert(m.file_history + records =~= m.file_history);
        assert(m.stdout + records =~= m.stdout);
    } else {
        let m1 = emit_step(m, records[0]);
        lemma_emit_step_inv(m, records[0]);
        lemma_fanout_run(m1, records.skip(1));
        assert(m1.file_history + records.skip(1) =~= m.file_history + records);
        assert(m1.stdout + records.skip(1) =~= m.stdout + records);
    }
}

/// Law: a record that carries the active file to the threshold triggers
/// exactly one rotation — the pre-rotation content, that record included,
/// becomes the sole backup, and the active file restarts empty — while a
/// record that stays below it changes no backup.
pub proof fn lemma_rotation(m: PipelineModel, record: Seq<u8>)
    requires
        m.inv(),
    ensures
        m.active_bytes + record.len() >= m.max_file_size ==> emit_step(m, record) == (
        PipelineModel {
            active: Seq::empty(),
            active_bytes: 0,
            backup: Some(m.active.push(record)),
            stdout: m.stdout.push(record),
            file_history: m.file_history.push(record),
            ..m
        }),
        m.active_bytes + record.len() < m.max_file_size ==> emit_step(m, record).backup == m.backup
            && emit_step(m, record).active == m.active.push(record),
{
}

/// The log pipeline: the rotating file target and the standard-output
/// target, fed in fan-out. Records are byte strings; a record lands
/// whole in exactly one generation of the file, never split.
pub struct LogPipeline {
    /// The rotation threshold, in bytes.
    pub max_file_size: u64,
    /// Records now in the active file, in emission order.
    pub active: Vec<Vec<u8>>,
    /// Total size of the active file, in bytes.
    pub active_bytes: u64,
    /// The single retained backup, if a rotation has happened.
    pub backup: Option<Vec<Vec<u8>>>,
    /// Every record the standard-output target has received.
    pub stdout: Vec<Vec<u8>>,
    file_history: Ghost<Seq<Seq<u8>>>,
}

impl View for LogPipeline {
    type V = PipelineModel;

    closed spec fn view(&self) -> PipelineModel {
        PipelineModel {
            max_file_size: self.max_file_size as int,
            active: self.active.deep_view(),
            active_bytes: self.active_bytes as int,
            backup: match self.backup {
                Some(b) => Some(b.deep_view()),
                None => None,
            },
            stdout: self.stdout.deep_view(),
            file_history: self.file_history@,
        }
    }
}

/// An exact copy of one record.
fn copy_record(record: &Vec<u8>) -> (c: Vec<u8>)
    ensures
        c@ == record@,
{
    let n: usize = record.len();
    let mut c: Vec<u8> = Vec::new();
    let mut i: usize = 0;
    while i < n
        invariant
            n == record@.len(),
            i <= n,
            c@.len() == i,
            forall|j: int| 0 <= j < i ==> c@[j] == record@[j],
        decreases n - i,
    {
        c.push(record[i]);
        i += 1;
    }
    proof {
        assert(c@ =~= record@);
    }
    c
}

impl LogPipeline {
    /// The pipeline invariant, on the ghost image.
    pub open spec fn wf(&self) -> bool {
        self@.inv()
    }

    /// A pipeline with the given rotation threshold and nothing emitted.
    pub fn new(max_file_size: u64) -> (p: LogPipeline)
        requires
            max_file_size > 0,
        ensures
            p@ == fresh_model(max_file_size as int),
            p.wf(),
    {
        let p = LogPipeline {
            max_file_size,
            active: Vec::new(),
            active_bytes: 0,
            backup: None,
            stdout: Vec::new(),
            file_history: Ghost(Seq::empty()),
        };
        proof {
            assert(p@ =~~= fresh_model(max_file_size as int));
            assert(p@.on_disk() =~= Seq::<Seq<u8>>::empty());
        }
        p
    }

    /// Emits one record: it is written to the standard-output target and
    /// appended to the active file; when the active file thereby reaches
    /// the threshold, its whole content becomes the sole backup and the
    /// active file restarts empty.
    pub fn emit(&mut self, record: Vec<u8>)
        requires
            old(self).wf(),
            old(self)@.active_bytes + record@.len() <= u64::MAX,
        ensures
            final(self)@ == emit_step(old(self)@, record@),
            final(self).wf(),
    {
        proof {
            lemma_emit_step_inv(old(self)@, record@);
        }
        let ghost m0 = self@;
        let rec_len: usize = record.len();
        let copy = copy_record(&record);
        self.stdout.push(copy);
        self.active.push(record);
        self.file_history = Ghost(self.file_history@.push(record@));
        let new_bytes: u64 = self.active_bytes + (rec_len as u64);
        if new_bytes >= self.max_file_size {
            let mut drained: Vec<Vec<u8>> = Vec::new();
            core::mem::swap(&mut self.active, &mut drained);
            self.backup = Some(drained);
            self.active_bytes = 0;
            proof {
                assert(self@.active =~= Seq::<Seq<u8>>::empty());
                assert(self@.backup == Some(m0.active.push(record@))) by {
                    assert(self.backup matches Some(b) && b.deep_view() =~~= m0.active.push(
                        record@,
                    ));
                }
            }
        } else {
            self.active_bytes = new_bytes;
            proof {
                assert(self@.active =~~= m0.active.push(record@));
            }
        }
        proof {
            assert(self@.stdout =~~= m0.stdout.push(record@));
            assert(self@ =~~= emit_step(m0, record@));
        }
    }
}

/// Law: the backup slot is single — a later rotation overwrites the
/// backup made by an earlier one rather than adding a second backup.
pub proof fn lemma_rotation_keeps_one(m: PipelineModel, r1: Seq<u8>, r2: Seq<u8>)
    requires
        m.inv(),
        m.active_bytes + r1.len() >= m.max_file_size,
        r2.len() >= m.max_file_size,
    ensures
        emit_step(m, r1).backup == Some(m.active.push(r1)),
        emit_step(emit_step(m, r1), r2).backup == Some(seq![r2]),
        emit_step(emit_step(m, r1), r2).active == Seq::<Seq<u8>>::empty(),
{
    let m1 = emit_step(m, r1);
    lemma_emit_step_inv(m, r1);
    assert(m1.active.push(r2) =~= seq![r2]);
}

} // verus!
