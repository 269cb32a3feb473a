//! Decisions of the Bento client and workflow: where the guest and its input come from, what
//! to do on each status of a proving session, and the keys under which receipts are stored.
use crate::text::{chars_of, decimal_digits, string_of, u64_digits};
use vstd::prelude::*;

verus! {

/// Arguments of the Bento client.
pub struct Args {
    /// Path of the zkVM ELF file on disk.
    pub elf_file: Option<String>,
    /// Path of the encoded input, supplied with the ELF file.
    pub input_file: Option<String>,
    /// Run the sample guest with the given iteration count.
    pub iter_count: Option<u64>,
    /// Run an execute-only job (a preflight).
    pub exec_only: bool,
    /// Bento HTTP API endpoint.
    pub endpoint: String,
}

/// Where the guest and its input come from.
pub enum InputSource {
    /// An ELF file and an input file on disk.
    Files { elf: String, input: String },
    /// The sample guest, run for the given number of iterations.
    SampleIterations { count: u64 },
}

/// Why the client cannot start.
#[derive(Clone, Copy, Debug, PartialEq, Eq, Structural)]
pub enum ArgsError {
    /// Neither an ELF file nor an iteration count was given.
    NoInputSource,
}

impl Args {
    /// The source of the guest and its input: the files where an ELF file is given, else the
    /// sample guest where an iteration count is given.
    pub fn input_source(&self) -> (r: Result<InputSource, ArgsError>)
        requires
            self.elf_file is Some ==> self.input_file is Some,
        ensures
            match self.elf_file {
                Some(elf) => r matches Ok(InputSource::Files { elf: e, input: i }) && e@ == elf@
                    && i@ == self.input_file->0@,
                None => match self.iter_count {
                    Some(n) => r matches Ok(InputSource::SampleIterations { count }) && count == n,
                    None => r == Err::<InputSource, ArgsError>(ArgsError::NoInputSource),
                },
            },
    {
        match (&self.elf_file, &self.input_file) {
            (Some(elf), Some(input)) => Ok(InputSource::Files { elf: elf.clone(), input: input.clone() }),
            (Some(_), None) => Err(ArgsError::NoInputSource),
            (None, _) => match self.iter_count {
                Some(n) => Ok(InputSource::SampleIterations { count: n }),
                None => Err(ArgsError::NoInputSource),
            },
        }
    }
}

/// Seconds between two status queries of a running session.
pub const STATUS_POLL_SECS: u64 = 2;

/// What to do on a status of a proving session.
#[derive(Clone, Copy, Debug, PartialEq, Eq, Structural)]
pub enum SessionStep {
    /// The session runs: wait, then ask again.
    Wait,
    /// The session succeeded and only execution was asked for: done.
    Finish,
    /// The session succeeded: download the receipt, verify it, and upload it.
    DownloadReceipt,
    /// Any other status: the job failed.
    Fail,
}

/// Whether `s` has the characters `t`.
fn text_is(s: &str, t: &Vec<char>) -> (r: bool)
    ensures
        r == (s@ == t@),
{
    let c = chars_of(s);
    if c.len() != t.len() {
        return false;
    }
    let mut i: usize = 0;
    while i < c.len()
        invariant
            c@ == s@,
            c.len() == t.len(),
            i <= c.len(),
            forall|k: int| 0 <= k < i ==> c@[k] == t@[k],
        decreases c.len() - i,
    {
        if c[i] != t[i] {
            assert(c@[i as int] != t@[i as int]);
            return false;
        }
        i = i + 1;
    }
    assert(c@ =~= t@);
    true
}

/// The step after a session reports `status`.
pub fn session_step(status: &str, exec_only: bool) -> (r: SessionStep)
    ensures
        r == if status@ == seq!['R', 'U', 'N', 'N', 'I', 'N', 'G'] {
            SessionStep::Wait
        } else if status@ == seq!['S', 'U', 'C', 'C', 'E', 'E', 'D', 'E', 'D'] {
            if exec_only {
                SessionStep::Finish
            } else {
                SessionStep::DownloadReceipt
            }
        } else {
            SessionStep::Fail
        },
{
    let running: Vec<char> = vec!['R', 'U', 'N', 'N', 'I', 'N', 'G'];
    let succeeded: Vec<char> = vec!['S', 'U', 'C', 'C', 'E', 'E', 'D', 'E', 'D'];
    if text_is(status, &running) {
        SessionStep::Wait
    } else if text_is(status, &succeeded) {
        if exec_only {
            SessionStep::Finish
        } else {
            SessionStep::DownloadReceipt
        }
    } else {
        SessionStep::Fail
    }
}

/// The key of the recursion receipt `index` of a job: `job:<job_id>:<path>:<index>`.
pub open spec fn receipt_key_text(job_id: Seq<char>, path: Seq<char>, index: nat) -> Seq<char> {
    seq!['j', 'o', 'b', ':'] + job_id + seq![':'] + path + seq![':'] + decimal_digits(index)
}

/// The store key of the recursion receipt `index` of the job `job_id`, under `path`.
pub fn receipt_key(job_id: &str, path: &str, index: u64) -> (r: String)
    ensures
        r@ == receipt_key_text(job_id@, path@, index as nat),
{
    let mut v: Vec<char> = vec!['j', 'o', 'b', ':'];
    let mut parts: Vec<Vec<char>> = Vec::new();
    parts.push(chars_of(job_id));
    parts.push(vec![':']);
    parts.push(chars_of(path));
    parts.push(vec![':']);
    parts.push(u64_digits(index));
    let ghost start = v@;
    let mut p: usize = 0;
    while p < parts.len()
        invariant
            p <= parts.len(),
            v@ == start + parts@.take(p as int).fold_left(
                Seq::<char>::empty(),
                |acc: Seq<char>, x: Vec<char>| acc + x@,
            ),
        decreases parts.len() - p,
    {
        let part = &parts[p];
        let ghost before = v@;
        let mut i: usize = 0;
        while i < part.len()
            invariant
                i <= part.len(),
                v@ == before + part@.take(i as int),
            decreases part.len() - i,
        {
            v.push(part[i]);
            i = i + 1;
            assert(v@ =~= before + part@.take(i as int));
        }
        assert(part@.take(part.len() as int) =~= part@);
        proof {
            let f = |acc: Seq<char>, x: Vec<char>| acc + x@;
            assert(parts@.take(p + 1).drop_last() =~= parts@.take(p as int));
            assert(parts@.take(p + 1).fold_left(Seq::<char>::empty(), f) == parts@.take(
                p as int,
            ).fold_left(Seq::<char>::empty(), f) + parts@[p as int]@);
            assert(v@ =~= start + parts@.take(p + 1).fold_left(Seq::<char>::empty(), f));
        }
        p = p + 1;
    }
    proof {
        let f = |acc: Seq<char>, x: Vec<char>| acc + x@;
        let e = Seq::<char>::empty();
        assert(parts@.take(5) =~= parts@);
        reveal_with_fuel(vstd::seq::Seq::fold_left, 6);
        assert(parts@.take(0).fold_left(e, f) =~= e);
        assert(v@ =~= receipt_key_text(job_id@, path@, index as nat));
    }
    string_of(&v)
}

/// The store keys of a join: the two receipts joined and the joined one.
pub struct JoinKeys {
    pub left: String,
    pub right: String,
    pub output: String,
}

/// The keys of a join of the recursion receipts `left` and `right` of a job into `idx`.
pub fn join_keys(job_id: &str, path: &str, left: u64, right: u64, idx: u64) -> (r: JoinKeys)
    ensures
        r.left@ == receipt_key_text(job_id@, path@, left as nat),
        r.right@ == receipt_key_text(job_id@, path@, right as nat),
        r.output@ == receipt_key_text(job_id@, path@, idx as nat),
{
    JoinKeys {
        left: receipt_key(job_id, path, left),
        right: receipt_key(job_id, path, right),
        output: receipt_key(job_id, path, idx),
    }
}

} // verus!
