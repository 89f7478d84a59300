//! Foreground jobs, and the scrollback erases that one of them must not make.
use crate::bytes::{after, contains, copied, starts_with};
use crate::text::{self, ascii_lowercase, chars_of, eq_ignore_ascii_case, text_of};
use vstd::prelude::*;

verus! {

/// A process of a foreground job.
#[derive(Debug, Clone, PartialEq, Eq)]
pub struct ForegroundProcess {
    pub pid: u32,
    pub name: String,
    pub argv0: Option<String>,
    pub argv: Option<Vec<String>>,
    pub cmdline: Option<String>,
}

/// The process group that holds a pane's terminal.
#[derive(Debug, Clone, PartialEq, Eq)]
pub struct ForegroundJob {
    pub process_group_id: u32,
    pub processes: Vec<ForegroundProcess>,
}

/// Whether the shell is one of the job's processes.
pub open spec fn job_has_shell(job: ForegroundJob, shell_pid: u32) -> bool {
    exists|i: int|
        0 <= i < job.processes@.len() && (#[trigger] job.processes@[i]).pid == shell_pid
}

pub fn foreground_job_is_shell(job: &ForegroundJob, shell_pid: u32) -> (found: bool)
    ensures
        found == job_has_shell(*job, shell_pid),
{
    let mut i: usize = 0;
    while i < job.processes.len()
        invariant
            i <= job.processes.len(),
            forall|j: int| 0 <= j < i ==> (#[trigger] job.processes@[j]).pid != shell_pid,
        decreases job.processes.len() - i,
    {
        if job.processes[i].pid == shell_pid {
            assert(job.processes@[i as int].pid == shell_pid);
            return true;
        }
        i += 1;
    }
    false
}

/// The group that owns the colors set while it holds the terminal; the shell owns none.
pub fn current_transient_default_color_owner(job: Option<&ForegroundJob>, shell_pid: u32) -> (owner:
    Option<u32>)
    ensures
        owner == (match job {
            Some(job) => if job_has_shell(*job, shell_pid) {
                None
            } else {
                Some(job.process_group_id)
            },
            None => None,
        }),
{
    match job {
        Some(job) => if foreground_job_is_shell(job, shell_pid) {
            None
        } else {
            Some(job.process_group_id)
        },
        None => None,
    }
}

/// Whether a command line runs droid.
pub open spec fn droid_cmdline(cmdline: Seq<char>) -> bool {
    ||| text::same_ignoring_case(cmdline, "droid"@)
    ||| crate::bytes::utf8("droid ").is_prefix_of(vstd::utf8::encode_utf8(cmdline))
    ||| crate::bytes::occurs_in(
        crate::bytes::utf8("/droid"),
        vstd::utf8::encode_utf8(text::lowered(cmdline)),
    )
}

pub open spec fn droid_process(process: ForegroundProcess) -> bool {
    ||| text::same_ignoring_case(process.name@, "droid"@)
    ||| process.argv0 matches Some(argv0) && text::same_ignoring_case(argv0@, "droid"@)
    ||| process.cmdline matches Some(cmdline) && droid_cmdline(cmdline@)
}

/// Whether one of the job's processes is droid.
pub open spec fn droid_job(job: ForegroundJob) -> bool {
    exists|i: int| 0 <= i < job.processes@.len() && droid_process(#[trigger] job.processes@[i])
}

fn is_droid_cmdline(cmdline: &str) -> (found: bool)
    ensures
        found == droid_cmdline(cmdline@),
{
    if eq_ignore_ascii_case(cmdline, "droid") || starts_with(
        cmdline.as_bytes(),
        "droid ".as_bytes(),
    ) {
        return true;
    }
    let lower = text_of(ascii_lowercase(chars_of(cmdline).as_slice()).as_slice());
    contains(lower.as_str().as_bytes(), "/droid".as_bytes())
}

fn is_droid_process(process: &ForegroundProcess) -> (found: bool)
    ensures
        found == droid_process(*process),
{
    if eq_ignore_ascii_case(process.name.as_str(), "droid") {
        return true;
    }
    if let Some(argv0) = &process.argv0 {
        if eq_ignore_ascii_case(argv0.as_str(), "droid") {
            return true;
        }
    }
    match &process.cmdline {
        Some(cmdline) => is_droid_cmdline(cmdline.as_str()),
        None => false,
    }
}

pub fn foreground_job_uses_droid_scrollback_compat(job: &ForegroundJob) -> (found: bool)
    ensures
        found == droid_job(*job),
{
    let mut i: usize = 0;
    while i < job.processes.len()
        invariant
            i <= job.processes.len(),
            forall|j: int| 0 <= j < i ==> !droid_process(#[trigger] job.processes@[j]),
        decreases job.processes.len() - i,
    {
        if is_droid_process(&job.processes[i]) {
            assert(droid_process(job.processes@[i as int]));
            return true;
        }
        i += 1;
    }
    false
}

/// The sequences that erase scrollback.
pub open spec fn clear_sequence() -> Seq<u8> {
    crate::bytes::utf8("\x1b[3J")
}

pub open spec fn private_clear_sequence() -> Seq<u8> {
    crate::bytes::utf8("\x1b[?3J")
}

pub open spec fn holds_clear_sequence(bytes: Seq<u8>) -> bool {
    crate::bytes::occurs_in(clear_sequence(), bytes) || crate::bytes::occurs_in(
        private_clear_sequence(),
        bytes,
    )
}

/// `bytes`, read from the front, without the erase sequences met.
pub open spec fn without_clear_sequences(bytes: Seq<u8>) -> Seq<u8>
    decreases bytes.len(),
{
    proof {
        lemma_sequence_lengths();
    }
    if bytes.len() == 0 {
        bytes
    } else if clear_sequence().is_prefix_of(bytes) {
        without_clear_sequences(bytes.skip(4))
    } else if private_clear_sequence().is_prefix_of(bytes) {
        without_clear_sequences(bytes.skip(5))
    } else {
        seq![bytes[0]] + without_clear_sequences(bytes.skip(1))
    }
}

pub proof fn lemma_sequence_lengths()
    ensures
        clear_sequence().len() == 4,
        private_clear_sequence().len() == 5,
{
    reveal_strlit("\x1b[3J");
    reveal_strlit("\x1b[?3J");
    vstd::utf8::is_ascii_chars_encode_utf8("\x1b[3J"@);
    vstd::utf8::is_ascii_chars_encode_utf8("\x1b[?3J"@);
}

/// Output that holds no erase sequence is left exactly as it is.
pub proof fn law_other_output_unchanged(bytes: Seq<u8>)
    requires
        !holds_clear_sequence(bytes),
    ensures
        without_clear_sequences(bytes) == bytes,
    decreases bytes.len(),
{
    lemma_sequence_lengths();
    if bytes.len() > 0 {
        assert(!clear_sequence().is_prefix_of(bytes)) by {
            if clear_sequence().is_prefix_of(bytes) {
                assert(crate::bytes::occurs_at(clear_sequence(), bytes, 0));
            }
        }
        assert(!private_clear_sequence().is_prefix_of(bytes)) by {
            if private_clear_sequence().is_prefix_of(bytes) {
                assert(crate::bytes::occurs_at(private_clear_sequence(), bytes, 0));
            }
        }
        let rest = bytes.skip(1);
        assert(!holds_clear_sequence(rest)) by {
            if crate::bytes::occurs_in(clear_sequence(), rest) {
                let i = choose|i: int| #[trigger]
                    crate::bytes::occurs_at(clear_sequence(), rest, i);
                assert(rest.subrange(i, i + 4) =~= bytes.subrange(i + 1, i + 5));
                assert(crate::bytes::occurs_at(clear_sequence(), bytes, i + 1));
            }
            if crate::bytes::occurs_in(private_clear_sequence(), rest) {
                let i = choose|i: int| #[trigger]
                    crate::bytes::occurs_at(private_clear_sequence(), rest, i);
                assert(rest.subrange(i, i + 5) =~= bytes.subrange(i + 1, i + 6));
                assert(crate::bytes::occurs_at(private_clear_sequence(), bytes, i + 1));
            }
        }
        law_other_output_unchanged(rest);
        assert(seq![bytes[0]] + rest =~= bytes);
    }
}

pub fn contains_scrollback_clear_sequence(bytes: &[u8]) -> (found: bool)
    ensures
        found == holds_clear_sequence(bytes@),
{
    contains(bytes, "\x1b[3J".as_bytes()) || contains(bytes, "\x1b[?3J".as_bytes())
}

pub fn strip_scrollback_clear_sequences(bytes: &[u8]) -> (filtered: Vec<u8>)
    ensures
        filtered@ == without_clear_sequences(bytes@),
{
    if !contains_scrollback_clear_sequence(bytes) {
        proof {
            law_other_output_unchanged(bytes@);
        }
        return copied(bytes);
    }
    proof {
        lemma_sequence_lengths();
    }
    let plain = "\x1b[3J".as_bytes();
    let private = "\x1b[?3J".as_bytes();
    let mut filtered: Vec<u8> = Vec::new();
    let mut index: usize = 0;
    assert(bytes@.skip(0) =~= bytes@);
    assert(filtered@ + without_clear_sequences(bytes@) =~= without_clear_sequences(bytes@));
    while index < bytes.len()
        invariant
            index <= bytes.len(),
            plain@ == clear_sequence(),
            private@ == private_clear_sequence(),
            plain@.len() == 4,
            private@.len() == 5,
            filtered@ + without_clear_sequences(bytes@.skip(index as int))
                == without_clear_sequences(bytes@),
        decreases bytes.len() - index,
    {
        let remaining = after(bytes, index);
        let ghost kept = filtered@;
        if starts_with(remaining, plain) {
            assert(remaining@.skip(4) =~= bytes@.skip(index + 4));
            index += 4;
        } else if starts_with(remaining, private) {
            assert(remaining@.skip(5) =~= bytes@.skip(index + 5));
            index += 5;
        } else {
            assert(remaining@.skip(1) =~= bytes@.skip(index + 1));
            filtered.push(bytes[index]);
            index += 1;
            assert(kept + (seq![remaining@[0]] + without_clear_sequences(remaining@.skip(1)))
                =~= filtered@ + without_clear_sequences(remaining@.skip(1)));
        }
    }
    assert(bytes@.skip(index as int) =~= Seq::empty());
    assert(filtered@ =~= filtered@ + Seq::empty());
    filtered
}

/// Droid redraws its primary-screen interface with a scrollback erase, which
/// would erase the pane's scrollback. Only for droid, and only on the primary
/// screen, the erases are taken out.
pub fn maybe_filter_primary_screen_scrollback_clear(
    bytes: &[u8],
    alternate_screen: bool,
    foreground_job: Option<&ForegroundJob>,
) -> (filtered: Vec<u8>)
    ensures
        filtered@ == (if !alternate_screen && foreground_job is Some && droid_job(
            *foreground_job->0,
        ) {
            without_clear_sequences(bytes@)
        } else {
            bytes@
        }),
{
    if alternate_screen {
        return copied(bytes);
    }
    let droid = match foreground_job {
        Some(job) => foreground_job_uses_droid_scrollback_compat(job),
        None => false,
    };
    if droid {
        strip_scrollback_clear_sequences(bytes)
    } else {
        copied(bytes)
    }
}

proof fn lemma_clear_literals()
    ensures
        clear_sequence() == seq![0x1bu8, '[' as u8, '3' as u8, 'J' as u8],
        private_clear_sequence() == seq![0x1bu8, '[' as u8, '?' as u8, '3' as u8, 'J' as u8],
{
    reveal_strlit("\x1b[3J");
    reveal_strlit("\x1b[?3J");
    vstd::utf8::is_ascii_chars_encode_utf8("\x1b[3J"@);
    vstd::utf8::is_ascii_chars_encode_utf8("\x1b[?3J"@);
    assert(clear_sequence() =~= seq![0x1bu8, '[' as u8, '3' as u8, 'J' as u8]);
    assert(private_clear_sequence() =~= seq![0x1bu8, '[' as u8, '?' as u8, '3' as u8, 'J' as u8]);
}

/// Both forms of the erase sequence are taken out of output, and what stands before and
/// behind one stays.
pub proof fn law_erase_sequences_are_taken_out(before: Seq<u8>, private: bool, after: Seq<u8>)
    requires
        forall|i: int| 0 <= i < before.len() ==> before[i] != 0x1b,
    ensures
        ({
            let erase = if private {
                seq![0x1bu8, '[' as u8, '?' as u8, '3' as u8, 'J' as u8]
            } else {
                seq![0x1bu8, '[' as u8, '3' as u8, 'J' as u8]
            };
            without_clear_sequences(before + erase + after) == before + without_clear_sequences(
                after,
            )
        }),
    decreases before.len(),
{
    lemma_clear_literals();
    lemma_sequence_lengths();
    let erase = if private {
        seq![0x1bu8, '[' as u8, '?' as u8, '3' as u8, 'J' as u8]
    } else {
        seq![0x1bu8, '[' as u8, '3' as u8, 'J' as u8]
    };
    let whole = before + erase + after;
    if before.len() == 0 {
        assert(whole =~= erase + after);
        if private {
            assert(whole[2] == '?' as u8);
            if clear_sequence().is_prefix_of(whole) {
                assert(whole.subrange(0, 4)[2] == whole[2]);
                assert(clear_sequence()[2] == '3' as u8);
            }
            assert(private_clear_sequence() =~= whole.subrange(0, 5));
            assert(whole.skip(5) =~= after);
        } else {
            assert(clear_sequence() =~= whole.subrange(0, 4));
            assert(whole.skip(4) =~= after);
        }
        assert(before + without_clear_sequences(after) =~= without_clear_sequences(after));
    } else {
        assert(whole[0] == before[0]);
        if clear_sequence().is_prefix_of(whole) {
            assert(whole.subrange(0, 4)[0] == whole[0]);
            assert(clear_sequence()[0] == 0x1b);
        }
        if private_clear_sequence().is_prefix_of(whole) {
            assert(whole.subrange(0, 5)[0] == whole[0]);
            assert(private_clear_sequence()[0] == 0x1b);
        }
        let rest = before.skip(1);
        assert forall|i: int| 0 <= i < rest.len() implies rest[i] != 0x1b by {
            assert(rest[i] == before[i + 1]);
        }
        law_erase_sequences_are_taken_out(rest, private, after);
        assert(whole.skip(1) =~= rest + erase + after);
        assert(seq![before[0]] + (rest + without_clear_sequences(after)) =~= before
            + without_clear_sequences(after));
    }
}

/// A job is the shell's exactly if the shell is among its processes.
pub proof fn law_shell_jobs(job: ForegroundJob, shell_pid: u32, i: int)
    requires
        0 <= i < job.processes@.len(),
    ensures
        job.processes@[i].pid == shell_pid ==> job_has_shell(job, shell_pid),
        (forall|k: int|
            0 <= k < job.processes@.len() ==> (#[trigger] job.processes@[k]).pid != shell_pid)
            ==> !job_has_shell(job, shell_pid),
{
}

/// A process is droid by its name, by the name that it was started under, or by its command
/// line; one that shows none of these is not.
pub proof fn law_droid_processes(process: ForegroundProcess)
    ensures
        text::same_ignoring_case(process.name@, "droid"@) ==> droid_process(process),
        process.argv0 is Some && text::same_ignoring_case(process.argv0->0@, "droid"@)
            ==> droid_process(process),
        process.cmdline is Some && text::same_ignoring_case(process.cmdline->0@, "droid"@)
            ==> droid_process(process),
        process.argv0 is None && process.cmdline is None && !text::same_ignoring_case(
            process.name@,
            "droid"@,
        ) ==> !droid_process(process),
{
}

/// A command line runs droid where its program is droid, bare, with arguments or at the end
/// of a path.
pub proof fn law_droid_command_lines(line: Seq<char>)
    ensures
        droid_cmdline(line) <==> {
            ||| text::same_ignoring_case(line, "droid"@)
            ||| crate::bytes::utf8("droid ").is_prefix_of(vstd::utf8::encode_utf8(line))
            ||| exists|i: int| #[trigger]
                crate::bytes::occurs_at(
                    crate::bytes::utf8("/droid"),
                    vstd::utf8::encode_utf8(text::lowered(line)),
                    i,
                )
        },
{
}

/// One droid process makes a droid job.
pub proof fn law_droid_jobs(job: ForegroundJob, i: int)
    requires
        0 <= i < job.processes@.len(),
    ensures
        droid_process(job.processes@[i]) ==> droid_job(job),
        (forall|k: int|
            0 <= k < job.processes@.len() ==> !droid_process(#[trigger] job.processes@[k]))
            ==> !droid_job(job),
{
}

} // verus!
