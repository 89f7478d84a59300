//! The private home of a hidden guest process, and the reclaiming of homes
//! whose owners died.
use crate::execution::nonce::random_hex_string;
use crate::execution::error::ExecutionError;
use crate::execution::remote::{self, EnvOp, EnvOpView};
use crate::ipc::FileFacts;
use crate::random;
use crate::text::{self, chars_of, decimal_text, find_char, push_char, starts_with_chars};
use vstd::prelude::*;
use vstd::string::StringExecFns;

verus! {

/// How often a new home's name is tried.
pub const ALLOCATION_ATTEMPTS: u32 = 8;

/// Who a home belongs to.
#[derive(Debug, Clone, Copy, PartialEq, Eq, Structural)]
pub struct OwnerMetadata {
    pub schema: u8,
    pub pid: u32,
    pub process_start_identity: Option<u64>,
}

/// The variables that would lead a guest to state outside its home.
pub open spec fn cleared_variables() -> Seq<Seq<char>> {
    seq![
        "XDG_DATA_HOME"@,
        "XDG_STATE_HOME"@,
        "XDG_CACHE_HOME"@,
        "XDG_CONFIG_HOME"@,
        "OMP_PROFILE"@,
        "PI_PROFILE"@,
        "PI_CODING_AGENT_SESSION_DIR"@,
        "PI_CONFIG_FILES"@,
        "OMP_WORKTREE_DIR"@,
        "OMP_AUTORESEARCH_DB_DIR"@,
        "OMP_GITHUB_CACHE_DB"@,
        "OMP_AUTH_BROKER_SNAPSHOT_CACHE"@,
    ]
}

/// The environment of a guest with a private home.
pub open spec fn guest_environment(root: Seq<char>) -> Seq<EnvOpView> {
    remote::removals(cleared_variables()) + seq![
        EnvOpView::Assign("HOME"@, root),
        EnvOpView::Assign("PI_CONFIG_DIR"@, ".omp"@),
        EnvOpView::Assign("PI_CODING_AGENT_DIR"@, remote::path_below(root, ".omp/agent"@)),
    ]
}

/// The directory of the guest's agent inside its home.
pub fn agent_dir(root: &str) -> (dir: String)
    ensures
        dir@ == remote::path_below(root@, ".omp/agent"@),
{
    let base = chars_of(root);
    let mut dir = root.to_owned();
    if base.len() > 0 && base[base.len() - 1] != '/' {
        push_char(&mut dir, '/');
        assert(dir@ =~= root@ + seq!['/']);
    }
    dir.append(".omp/agent");
    dir
}

/// The changes that make a guest's environment.
pub fn guest_env(root: &str) -> (ops: Vec<EnvOp>)
    ensures
        remote::op_views(ops@) == guest_environment(root@),
{
    let mut ops: Vec<EnvOp> = Vec::new();
    ops.push(EnvOp::Remove("XDG_DATA_HOME".to_owned()));
    ops.push(EnvOp::Remove("XDG_STATE_HOME".to_owned()));
    ops.push(EnvOp::Remove("XDG_CACHE_HOME".to_owned()));
    ops.push(EnvOp::Remove("XDG_CONFIG_HOME".to_owned()));
    ops.push(EnvOp::Remove("OMP_PROFILE".to_owned()));
    ops.push(EnvOp::Remove("PI_PROFILE".to_owned()));
    ops.push(EnvOp::Remove("PI_CODING_AGENT_SESSION_DIR".to_owned()));
    ops.push(EnvOp::Remove("PI_CONFIG_FILES".to_owned()));
    ops.push(EnvOp::Remove("OMP_WORKTREE_DIR".to_owned()));
    ops.push(EnvOp::Remove("OMP_AUTORESEARCH_DB_DIR".to_owned()));
    ops.push(EnvOp::Remove("OMP_GITHUB_CACHE_DB".to_owned()));
    ops.push(EnvOp::Remove("OMP_AUTH_BROKER_SNAPSHOT_CACHE".to_owned()));
    ops.push(EnvOp::Assign("HOME".to_owned(), root.to_owned()));
    ops.push(EnvOp::Assign("PI_CONFIG_DIR".to_owned(), ".omp".to_owned()));
    ops.push(EnvOp::Assign("PI_CODING_AGENT_DIR".to_owned(), agent_dir(root)));
    assert(remote::op_views(ops@) =~= guest_environment(root@));
    ops
}

/// The name of a home.
pub open spec fn root_name(pid: nat, suffix: Seq<char>) -> Seq<char> {
    "herdr-omp-"@ + text::decimal(pid) + seq!['-'] + suffix
}

/// The name of a new home of process `pid`.
pub fn guest_root_name(pid: u32) -> (name: Result<String, ExecutionError>)
    ensures
        match name {
            Ok(name) => exists|bytes: Seq<u8>| #[trigger]
                root_name(pid as nat, random::hex_of(bytes)) == name@ && bytes.len() == 16,
            Err(error) => error is RandomUnavailable,
        },
{
    match random_hex_string(16) {
        Ok(suffix) => {
            let name = guest_root_name_of(pid, suffix.as_str());
            proof {
                let bytes = choose|bytes: Seq<u8>| #[trigger]
                    random::hex_of(bytes) == suffix@ && bytes.len() == 16;
                assert(name@ == root_name(pid as nat, random::hex_of(bytes)));
            }
            Ok(name)
        },
        Err(error) => Err(error),
    }
}

/// The name of the home of process `pid` with a given suffix.
pub fn guest_root_name_of(pid: u32, suffix: &str) -> (name: String)
    ensures
        name@ == root_name(pid as nat, suffix@),
{
    let mut name = "herdr-omp-".to_owned();
    name.append(decimal_text(pid as u128).as_str());
    push_char(&mut name, '-');
    name.append(suffix);
    assert(name@ =~= root_name(pid as nat, suffix@));
    name
}

pub open spec fn digit_chars(chars: Seq<char>) -> bool {
    forall|i: int| 0 <= i < chars.len() ==> '0' <= #[trigger] chars[i] <= '9'
}

/// The number that decimal digits make.
pub open spec fn digits_value(chars: Seq<char>) -> int
    decreases chars.len(),
{
    if chars.len() == 0 {
        0
    } else {
        digits_value(chars.drop_last()) * 10 + (chars.last() as int - '0' as int)
    }
}

/// The number that a text is: decimal digits, with a plus sign or without.
pub open spec fn parsed_u32(chars: Seq<char>) -> Option<u32> {
    let digits = if chars.len() > 0 && chars[0] == '+' {
        chars.skip(1)
    } else {
        chars
    };
    if digits.len() > 0 && digit_chars(digits) && digits_value(digits) <= u32::MAX {
        Some(digits_value(digits) as u32)
    } else {
        None
    }
}

pub open spec fn hex_suffix(chars: Seq<char>) -> bool {
    chars.len() == 32 && forall|i: int|
        0 <= i < chars.len() ==> crate::execution::nonce::hex_digit_of_either_case(
            #[trigger] chars[i],
        )
}

/// The process that a home's name says it belongs to.
pub open spec fn named_pid(name: Seq<char>) -> Option<u32> {
    if !"herdr-omp-"@.is_prefix_of(name) {
        None
    } else {
        let rest = name.skip("herdr-omp-"@.len() as int);
        let dash = text::char_index(rest, '-');
        if dash == rest.len() || !hex_suffix(rest.skip(dash + 1)) {
            None
        } else {
            parsed_u32(rest.take(dash))
        }
    }
}

proof fn lemma_digits_value_bounds(chars: Seq<char>, n: int)
    requires
        digit_chars(chars),
        0 <= n <= chars.len(),
    ensures
        0 <= digits_value(chars.take(n)) <= digits_value(chars),
    decreases chars.len(),
{
    if n < chars.len() {
        assert(digit_chars(chars.drop_last()));
        lemma_digits_value_bounds(chars.drop_last(), n);
        assert(chars.drop_last().take(n) =~= chars.take(n));
        assert('0' <= chars[chars.len() - 1] <= '9');
    } else {
        assert(chars.take(n) =~= chars);
        lemma_digits_value_nonnegative(chars);
    }
}

proof fn lemma_digits_value_nonnegative(chars: Seq<char>)
    requires
        digit_chars(chars),
    ensures
        digits_value(chars) >= 0,
    decreases chars.len(),
{
    if chars.len() > 0 {
        assert(digit_chars(chars.drop_last()));
        lemma_digits_value_nonnegative(chars.drop_last());
        assert('0' <= chars[chars.len() - 1] <= '9');
    }
}

fn all_digit_chars(chars: &[char]) -> (digits: bool)
    ensures
        digits == digit_chars(chars@),
{
    let mut i: usize = 0;
    while i < chars.len()
        invariant
            i <= chars.len(),
            forall|j: int| 0 <= j < i ==> '0' <= #[trigger] chars@[j] <= '9',
        decreases chars.len() - i,
    {
        if chars[i] < '0' || chars[i] > '9' {
            assert(!('0' <= chars@[i as int] <= '9'));
            return false;
        }
        i += 1;
    }
    true
}

/// The number that a text is.
pub fn parse_u32(chars: &[char]) -> (number: Option<u32>)
    ensures
        number == parsed_u32(chars@),
{
    let start: usize = if chars.len() > 0 && chars[0] == '+' {
        1
    } else {
        0
    };
    let digits = &chars[start..chars.len()];
    assert(start == 0 ==> digits@ =~= chars@);
    assert(start == 1 ==> digits@ =~= chars@.skip(1));
    if digits.len() == 0 || !all_digit_chars(digits) {
        return None;
    }
    let ghost expected = digits@;
    let mut value: u64 = 0;
    let mut i: usize = 0;
    assert(digits@.take(0).len() == 0);
    while i < digits.len()
        invariant
            i <= digits.len(),
            expected == digits@,
            digit_chars(expected),
            expected.len() > 0,
            parsed_u32(chars@) == (if digits_value(expected) <= u32::MAX {
                Some(digits_value(expected) as u32)
            } else {
                None
            }),
            value <= u32::MAX,
            value == digits_value(expected.take(i as int)),
        decreases digits.len() - i,
    {
        let ghost next = expected.take(i as int + 1);
        assert(next.drop_last() =~= expected.take(i as int));
        assert('0' <= expected[i as int] <= '9');
        let digit: u8 = digits[i] as u8 - '0' as u8;
        value = value * 10 + digit as u64;
        assert(value == digits_value(next));
        if value > u32::MAX as u64 {
            proof {
                lemma_digits_value_bounds(expected, i as int + 1);
            }
            return None;
        }
        i += 1;
    }
    assert(expected.take(i as int) =~= expected);
    Some(value as u32)
}

fn is_hex_suffix(chars: &[char]) -> (valid: bool)
    ensures
        valid == hex_suffix(chars@),
{
    if chars.len() != 32 {
        return false;
    }
    let mut i: usize = 0;
    while i < chars.len()
        invariant
            i <= chars.len(),
            forall|j: int|
                0 <= j < i ==> crate::execution::nonce::hex_digit_of_either_case(
                    #[trigger] chars@[j],
                ),
        decreases chars.len() - i,
    {
        let ch = chars[i];
        if !(('0' <= ch && ch <= '9') || ('a' <= ch && ch <= 'f') || ('A' <= ch && ch <= 'F')) {
            assert(!crate::execution::nonce::hex_digit_of_either_case(chars@[i as int]));
            return false;
        }
        i += 1;
    }
    true
}

/// The process that a directory's name says it belongs to, where the name is
/// that of a home.
pub fn guest_root_pid(name: &str) -> (pid: Option<u32>)
    ensures
        pid == named_pid(name@),
{
    let chars = chars_of(name);
    let prefix = chars_of("herdr-omp-");
    if !starts_with_chars(chars.as_slice(), prefix.as_slice()) {
        return None;
    }
    let rest = &chars[prefix.len()..chars.len()];
    assert(rest@ =~= name@.skip("herdr-omp-"@.len() as int));
    let dash: usize = match find_char(rest, '-') {
        Some(dash) => dash,
        None => return None,
    };
    assert(dash < rest.len());
    let suffix = &rest[dash + 1..rest.len()];
    assert(suffix@ =~= rest@.skip(dash + 1));
    if !is_hex_suffix(suffix) {
        return None;
    }
    assert(rest@.subrange(0, dash as int) =~= rest@.take(dash as int));
    parse_u32(&rest[0..dash])
}

/// Whether a home's owner is gone: its process has another start time, or,
/// where start times are unknown, no process has its ID.
pub open spec fn owner_inactive(
    owner: OwnerMetadata,
    process_exists: bool,
    process_start_identity: Option<u64>,
) -> bool {
    match (owner.process_start_identity, process_start_identity) {
        (Some(expected), Some(actual)) => expected != actual,
        _ => !process_exists,
    }
}

/// Whether a home's owner is gone. The last two arguments are what the system
/// says of the owner's process ID.
pub fn owner_process_is_inactive_with(
    owner: &OwnerMetadata,
    process_exists: bool,
    process_start_identity: Option<u64>,
) -> (inactive: bool)
    ensures
        inactive == owner_inactive(*owner, process_exists, process_start_identity),
{
    if let (Some(expected), Some(actual)) = (owner.process_start_identity, process_start_identity) {
        return expected != actual;
    }
    !process_exists
}

/// Whether a directory is a home that only its owner could enter.
pub open spec fn private_home(directory: FileFacts, uid: u32) -> bool {
    directory.is_dir && directory.uid == uid && directory.mode as int % 512 == 0o700
}

/// Whether a file of owner metadata could be written only by its owner.
pub open spec fn private_metadata(file: FileFacts, uid: u32) -> bool {
    file.is_file && file.uid == uid && file.mode as int % 64 == 0
}

/// Whether a directory may be removed as the home of a process that is gone.
/// `named` is the process that its name gives, and `owner` what its metadata says.
pub fn root_is_reclaimable(
    named: u32,
    directory: FileFacts,
    metadata: FileFacts,
    uid: u32,
    owner: &OwnerMetadata,
    process_exists: bool,
    process_start_identity: Option<u64>,
) -> (reclaimable: bool)
    ensures
        reclaimable == (private_home(directory, uid) && private_metadata(metadata, uid)
            && owner.schema == 1 && owner.pid == named && owner_inactive(
            *owner,
            process_exists,
            process_start_identity,
        )),
{
    directory.is_dir && directory.uid == uid && directory.mode % 512 == 0o700 && metadata.is_file
        && metadata.uid == uid && metadata.mode % 64 == 0 && owner.schema == 1 && owner.pid == named
        && owner_process_is_inactive_with(owner, process_exists, process_start_identity)
}

/// How creating a home's directory went.
#[derive(Debug, Clone, Copy, PartialEq, Eq, Structural)]
pub enum CreateOutcome {
    Created,
    AlreadyExists,
    Failed,
}

/// What follows.
#[derive(Debug, Clone, Copy, PartialEq, Eq, Structural)]
pub enum AllocationStep {
    Initialize,
    TryAnotherName,
    GiveUp,
    Fail,
}

/// What follows the `attempt`th try, counted from one: a name that is taken is
/// tried anew a bounded number of times.
pub fn allocation_step(attempt: u32, outcome: CreateOutcome) -> (step: AllocationStep)
    ensures
        step == (match outcome {
            CreateOutcome::Created => AllocationStep::Initialize,
            CreateOutcome::AlreadyExists => if attempt < ALLOCATION_ATTEMPTS {
                AllocationStep::TryAnotherName
            } else {
                AllocationStep::GiveUp
            },
            CreateOutcome::Failed => AllocationStep::Fail,
        }),
{
    match outcome {
        CreateOutcome::Created => AllocationStep::Initialize,
        CreateOutcome::AlreadyExists => if attempt < ALLOCATION_ATTEMPTS {
            AllocationStep::TryAnotherName
        } else {
            AllocationStep::GiveUp
        },
        CreateOutcome::Failed => AllocationStep::Fail,
    }
}

proof fn lemma_decimal_value(n: nat)
    ensures
        text::decimal(n).len() >= 1,
        digit_chars(text::decimal(n)),
        digits_value(text::decimal(n)) == n,
    decreases n,
{
    if n < 10 {
        let digits = text::decimal(n);
        assert(digits.drop_last() =~= Seq::empty());
        assert(digits_value(digits.drop_last()) == 0);
        assert(digits.last() as int == '0' as int + n);
    } else {
        lemma_decimal_value(n / 10);
        let digits = text::decimal(n);
        let earlier = text::decimal(n / 10);
        assert(digits.drop_last() =~= earlier);
        assert(digits.last() as int == '0' as int + n % 10);
        assert forall|i: int| 0 <= i < digits.len() implies '0' <= #[trigger] digits[i] <= '9' by {
            if i < earlier.len() {
                assert(digits[i] == earlier[i]);
            }
        }
    }
}

/// The process that made a home is found again from the home's name.
pub proof fn law_owner_found_from_name(pid: u32, bytes: Seq<u8>)
    requires
        bytes.len() == 16,
    ensures
        named_pid(root_name(pid as nat, random::hex_of(bytes))) == Some(pid),
{
    let prefix = "herdr-omp-"@;
    let suffix = random::hex_of(bytes);
    let digits = text::decimal(pid as nat);
    let name = root_name(pid as nat, suffix);
    let rest = digits + seq!['-'] + suffix;
    random::law_hex_text(bytes);
    lemma_decimal_value(pid as nat);
    assert(name =~= prefix + rest);
    assert(prefix =~= name.subrange(0, prefix.len() as int));
    assert(name.skip(prefix.len() as int) =~= rest);
    assert forall|j: int| 0 <= j < digits.len() implies rest[j] != '-' by {
        assert(rest[j] == digits[j]);
        assert('0' <= digits[j] <= '9');
    }
    text::lemma_char_index(rest, '-', digits.len() as int);
    assert(rest.skip(digits.len() as int + 1) =~= suffix);
    assert(rest.take(digits.len() as int) =~= digits);
    assert forall|i: int| 0 <= i < suffix.len() implies
        crate::execution::nonce::hex_digit_of_either_case(#[trigger] suffix[i]) by {
        assert(random::lower_hex(suffix[i]));
    }
    assert('0' <= digits[0] <= '9');
}

/// A guest lives in its own home: its home and its agent's directory are there, whatever it
/// inherits, and no variable leads it to state elsewhere.
pub proof fn law_guest_lives_in_its_home(
    root: Seq<char>,
    inherited: Map<Seq<char>, Seq<char>>,
    key: Seq<char>,
)
    ensures
        ({
            let env = remote::environment_after(guest_environment(root), inherited);
            &&& env.contains_key("HOME"@) && env["HOME"@] == root
            &&& env.contains_key("PI_CONFIG_DIR"@) && env["PI_CONFIG_DIR"@] == ".omp"@
            &&& env.contains_key("PI_CODING_AGENT_DIR"@)
            &&& root.len() > 0 && root.last() != '/' ==> env["PI_CODING_AGENT_DIR"@] == root
                + seq!['/'] + ".omp/agent"@
            &&& key == "XDG_DATA_HOME"@ || key == "XDG_STATE_HOME"@ || key == "XDG_CACHE_HOME"@
                || key == "XDG_CONFIG_HOME"@ || key == "OMP_PROFILE"@ || key == "PI_PROFILE"@ || key
                == "PI_CODING_AGENT_SESSION_DIR"@ || key == "PI_CONFIG_FILES"@ || key
                == "OMP_WORKTREE_DIR"@ || key == "OMP_AUTORESEARCH_DB_DIR"@ || key
                == "OMP_GITHUB_CACHE_DB"@ || key == "OMP_AUTH_BROKER_SNAPSHOT_CACHE"@
                ==> !env.contains_key(key)
        }),
{
    reveal_strlit("HOME");
    reveal_strlit("PI_CONFIG_DIR");
    reveal_strlit("PI_CODING_AGENT_DIR");
    reveal_strlit("XDG_DATA_HOME");
    reveal_strlit("XDG_STATE_HOME");
    reveal_strlit("XDG_CACHE_HOME");
    reveal_strlit("XDG_CONFIG_HOME");
    reveal_strlit("OMP_PROFILE");
    reveal_strlit("PI_PROFILE");
    reveal_strlit("PI_CODING_AGENT_SESSION_DIR");
    reveal_strlit("PI_CONFIG_FILES");
    reveal_strlit("OMP_WORKTREE_DIR");
    reveal_strlit("OMP_AUTORESEARCH_DB_DIR");
    reveal_strlit("OMP_GITHUB_CACHE_DB");
    reveal_strlit("OMP_AUTH_BROKER_SNAPSHOT_CACHE");
    assert("HOME"@.len() == 4 && "PI_CONFIG_DIR"@.len() == 13 && "PI_CODING_AGENT_DIR"@.len()
        == 19);
    assert("PI_CONFIG_DIR"@[0] == 'P' && "XDG_DATA_HOME"@[0] == 'X' && "XDG_DATA_HOME"@.len()
        == 13);
    let removed = remote::removals(cleared_variables());
    let first = removed.push(EnvOpView::Assign("HOME"@, root));
    let second = first.push(EnvOpView::Assign("PI_CONFIG_DIR"@, ".omp"@));
    let ops = guest_environment(root);
    let agent = remote::path_below(root, ".omp/agent"@);
    assert(ops =~= second.push(EnvOpView::Assign("PI_CODING_AGENT_DIR"@, agent)));
    assert(ops.drop_last() =~= second);
    assert(second.drop_last() =~= first);
    assert(first.drop_last() =~= removed);
    reveal_with_fuel(remote::environment_after, 4);
    let all = cleared_variables();
    assert(all[0] == "XDG_DATA_HOME"@ && all[1] == "XDG_STATE_HOME"@ && all[2]
        == "XDG_CACHE_HOME"@ && all[3] == "XDG_CONFIG_HOME"@ && all[4] == "OMP_PROFILE"@ && all[5]
        == "PI_PROFILE"@ && all[6] == "PI_CODING_AGENT_SESSION_DIR"@ && all[7]
        == "PI_CONFIG_FILES"@ && all[8] == "OMP_WORKTREE_DIR"@ && all[9]
        == "OMP_AUTORESEARCH_DB_DIR"@ && all[10] == "OMP_GITHUB_CACHE_DB"@ && all[11]
        == "OMP_AUTH_BROKER_SNAPSHOT_CACHE"@);
    let env = remote::environment_after(ops, inherited);
    assert forall|i: int| 0 <= i < all.len() implies !#[trigger] env.contains_key(all[i]) by {
        assert(all.contains(all[i]));
        remote::lemma_removals(all, inherited, all[i]);
        let name = all[i];
        assert(name != "HOME"@ && name != "PI_CONFIG_DIR"@ && name != "PI_CODING_AGENT_DIR"@) by {
            assert("PI_CODING_AGENT_DIR"@[0] == 'P');
            assert("OMP_GITHUB_CACHE_DB"@[0] == 'O');
            assert("XDG_STATE_HOME"@.len() == 14 && "XDG_CACHE_HOME"@.len() == 14);
            assert("XDG_CONFIG_HOME"@.len() == 15 && "OMP_PROFILE"@.len() == 11);
            assert("PI_PROFILE"@.len() == 10 && "PI_CODING_AGENT_SESSION_DIR"@.len() == 27);
            assert("PI_CONFIG_FILES"@.len() == 15 && "OMP_WORKTREE_DIR"@.len() == 16);
            assert("OMP_AUTORESEARCH_DB_DIR"@.len() == 23);
            assert("OMP_AUTH_BROKER_SNAPSHOT_CACHE"@.len() == 30);
        }
    }
}

/// The owner of a home is gone exactly if its process started at another time than the one
/// that has its number now, or, where that cannot be told, if no process has its number.
pub proof fn law_living_owners_keep_their_home(
    owner: OwnerMetadata,
    process_exists: bool,
    start: Option<u64>,
)
    ensures
        owner.process_start_identity is Some && start is Some ==> (owner_inactive(
            owner,
            process_exists,
            start,
        ) <==> owner.process_start_identity != start),
        owner.process_start_identity is None || start is None ==> (owner_inactive(
            owner,
            process_exists,
            start,
        ) <==> !process_exists),
{
}

/// A home is private if its directory is the user's own and only the owner may use it; what
/// stands above the permissions does not matter.
pub proof fn law_private_homes(directory: FileFacts, uid: u32, above: u32, permissions: u32)
    requires
        permissions < 512,
        above <= 0x7f_ffff,
        directory.mode == above * 512 + permissions,
    ensures
        private_home(directory, uid) <==> directory.is_dir && directory.uid == uid && permissions
            == 0o700,
        private_metadata(directory, uid) <==> directory.is_file && directory.uid == uid
            && permissions % 64 == 0,
{
    assert((above * 512 + permissions) % 512 == permissions) by (nonlinear_arith)
        requires
            0 <= permissions < 512,
            above >= 0,
    ;
    assert((above * 512 + permissions) % 64 == permissions % 64) by (nonlinear_arith)
        requires
            0 <= permissions < 512,
            above >= 0,
    ;
}

/// Only a name of the form of a home's names a process.
pub proof fn law_foreign_names_name_no_process(name: Seq<char>)
    ensures
        named_pid(name) is Some ==> {
            &&& "herdr-omp-"@.is_prefix_of(name)
            &&& name.len() >= 44
            &&& name[name.len() - 33] == '-'
            &&& forall|i: int|
                name.len() - 32 <= i < name.len() ==> ('0' <= #[trigger] name[i] <= '9' || 'a'
                    <= name[i] <= 'f' || 'A' <= name[i] <= 'F')
        },
{
    reveal_strlit("herdr-omp-");
    if named_pid(name) is Some {
        let rest = name.skip(10);
        let dash = text::char_index(rest, '-');
        text::lemma_char_index_found(rest, '-');
        let suffix = rest.skip(dash + 1);
        assert(suffix.len() == 32);
        assert(name[name.len() - 33] == rest[dash]);
        assert forall|i: int| name.len() - 32 <= i < name.len() implies ('0' <= #[trigger] name[i]
            <= '9' || 'a' <= name[i] <= 'f' || 'A' <= name[i] <= 'F') by {
            assert(name[i] == suffix[i - (name.len() - 32)]);
        }
        assert(rest.take(dash).len() > 0) by {
            assert(parsed_u32(rest.take(dash)) is Some);
        }
    }
}

/// A number is read from its decimal digits, with or without a plus sign before them.
pub proof fn law_numbers_are_read_back(n: u32)
    ensures
        parsed_u32(text::decimal(n as nat)) == Some(n),
        parsed_u32(seq!['+'] + text::decimal(n as nat)) == Some(n),
        parsed_u32(Seq::empty()) is None,
{
    lemma_decimal_value(n as nat);
    let digits = text::decimal(n as nat);
    assert('0' <= digits[0] <= '9');
    assert((seq!['+'] + digits).skip(1) =~= digits);
}

} // verus!
