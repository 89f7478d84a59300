//! Where a command runs: on this machine, over SSH, or through a provider.
use crate::execution::error::ExecutionError;
use crate::text::{
    self, chars_of, eq_ignore_ascii_case, find_char, is_control, is_whitespace, same_text,
    starts_with_chars, text_of,
};
use vstd::prelude::*;
use vstd::string::StringExecFns;

verus! {

#[derive(Debug, Clone, PartialEq, Eq)]
pub enum ExecutionTarget {
    Local,
    Ssh { host: String },
    Extension { scheme: String, target: String },
}

/// The content of an execution target.
pub enum TargetView {
    Local,
    Ssh { host: Seq<char> },
    Extension { scheme: Seq<char>, target: Seq<char> },
}

impl View for ExecutionTarget {
    type V = TargetView;

    open spec fn view(&self) -> TargetView {
        match self {
            ExecutionTarget::Local => TargetView::Local,
            ExecutionTarget::Ssh { host } => TargetView::Ssh { host: host@ },
            ExecutionTarget::Extension { scheme, target } => TargetView::Extension {
                scheme: scheme@,
                target: target@,
            },
        }
    }
}

/// An SSH destination: not empty, no leading dash, no white space or control characters.
pub open spec fn valid_ssh_host(host: Seq<char>) -> bool {
    &&& host.len() > 0
    &&& host[0] != '-'
    &&& forall|i: int|
        0 <= i < host.len() ==> !text::whitespace(#[trigger] host[i]) && !text::control(host[i])
}

pub open spec fn scheme_char(ch: char) -> bool {
    'a' <= ch <= 'z' || '0' <= ch <= '9' || ch == '+' || ch == '.' || ch == '-'
}

/// A provider scheme: `[a-z][a-z0-9+.-]*`, but neither `local` nor `ssh`.
pub open spec fn valid_scheme(scheme: Seq<char>) -> bool {
    &&& scheme.len() > 0
    &&& 'a' <= scheme[0] <= 'z'
    &&& forall|i: int| 0 <= i < scheme.len() ==> scheme_char(#[trigger] scheme[i])
    &&& scheme != "local"@
    &&& scheme != "ssh"@
}

/// White space and control characters of ASCII.
pub open spec fn ascii_blank(ch: char) -> bool {
    ch <= ' ' || ch == '\u{7f}'
}

/// A provider target: not empty, no ASCII white space or control characters.
pub open spec fn valid_target(target: Seq<char>) -> bool {
    target.len() > 0 && forall|i: int|
        0 <= i < target.len() ==> !ascii_blank(#[trigger] target[i])
}

pub open spec fn ssh_target(host: Seq<char>) -> Result<TargetView, ExecutionError> {
    if valid_ssh_host(host) {
        Ok(TargetView::Ssh { host })
    } else {
        Err(ExecutionError::InvalidSshHost)
    }
}

pub open spec fn extension_target(scheme: Seq<char>, target: Seq<char>) -> Result<
    TargetView,
    ExecutionError,
> {
    if !valid_scheme(scheme) {
        Err(ExecutionError::InvalidScheme)
    } else if !valid_target(target) {
        Err(ExecutionError::InvalidTarget)
    } else {
        Ok(TargetView::Extension { scheme, target })
    }
}

/// The target that a text names.
pub open spec fn parsed(value: Seq<char>) -> Result<TargetView, ExecutionError> {
    let colon = text::char_index(value, ':');
    if value == "local"@ {
        Ok(TargetView::Local)
    } else if "ssh:"@.is_prefix_of(value) {
        ssh_target(value.skip("ssh:"@.len() as int))
    } else if colon < value.len() {
        extension_target(value.take(colon), value.skip(colon + 1))
    } else {
        Err(ExecutionError::MalformedTarget)
    }
}

impl TargetView {
    /// What targets are built by the constructors and by parsing.
    pub open spec fn valid(self) -> bool {
        match self {
            TargetView::Local => true,
            TargetView::Ssh { host } => valid_ssh_host(host),
            TargetView::Extension { scheme, target } => valid_scheme(scheme) && valid_target(
                target,
            ),
        }
    }

    /// The text that names a target.
    pub open spec fn shown(self) -> Seq<char> {
        match self {
            TargetView::Local => "local"@,
            TargetView::Ssh { host } => "ssh:"@ + host,
            TargetView::Extension { scheme, target } => scheme + ":"@ + target,
        }
    }
}

pub open spec fn same_outcome(
    outcome: Result<ExecutionTarget, ExecutionError>,
    expected: Result<TargetView, ExecutionError>,
) -> bool {
    match outcome {
        Ok(target) => expected == Ok::<TargetView, ExecutionError>(target@),
        Err(error) => expected == Err::<TargetView, ExecutionError>(error),
    }
}

/// Whether a text is an acceptable SSH destination.
pub fn validate_ssh_host(host: &str) -> (valid: Result<(), ExecutionError>)
    ensures
        valid is Ok == valid_ssh_host(host@),
        valid matches Err(error) ==> error == ExecutionError::InvalidSshHost,
{
    let chars = chars_of(host);
    if chars.len() == 0 || chars[0] == '-' {
        return Err(ExecutionError::InvalidSshHost);
    }
    let mut i: usize = 0;
    while i < chars.len()
        invariant
            i <= chars.len(),
            chars@ == host@,
            forall|j: int|
                0 <= j < i ==> !text::whitespace(#[trigger] host@[j]) && !text::control(host@[j]),
        decreases chars.len() - i,
    {
        if is_whitespace(chars[i]) || is_control(chars[i]) {
            assert(text::whitespace(host@[i as int]) || text::control(host@[i as int]));
            return Err(ExecutionError::InvalidSshHost);
        }
        i += 1;
    }
    Ok(())
}

/// Whether a text is an acceptable provider scheme.
pub fn validate_execution_provider_scheme(scheme: &str) -> (valid: Result<(), ExecutionError>)
    ensures
        valid is Ok == valid_scheme(scheme@),
        valid matches Err(error) ==> error == ExecutionError::InvalidScheme,
{
    let chars = chars_of(scheme);
    if chars.len() == 0 || !('a' <= chars[0] && chars[0] <= 'z') {
        return Err(ExecutionError::InvalidScheme);
    }
    let mut i: usize = 0;
    while i < chars.len()
        invariant
            i <= chars.len(),
            chars@ == scheme@,
            forall|j: int| 0 <= j < i ==> scheme_char(#[trigger] scheme@[j]),
        decreases chars.len() - i,
    {
        let ch = chars[i];
        if !(('a' <= ch && ch <= 'z') || ('0' <= ch && ch <= '9') || ch == '+' || ch == '.' || ch
            == '-') {
            assert(!scheme_char(scheme@[i as int]));
            return Err(ExecutionError::InvalidScheme);
        }
        i += 1;
    }
    if same_text(scheme, "local") || same_text(scheme, "ssh") {
        return Err(ExecutionError::InvalidScheme);
    }
    Ok(())
}

/// Whether a text is an acceptable provider target.
pub fn validate_execution_provider_target(target: &str) -> (valid: Result<(), ExecutionError>)
    ensures
        valid is Ok == valid_target(target@),
        valid matches Err(error) ==> error == ExecutionError::InvalidTarget,
{
    let chars = chars_of(target);
    if chars.len() == 0 {
        return Err(ExecutionError::InvalidTarget);
    }
    let mut i: usize = 0;
    while i < chars.len()
        invariant
            i <= chars.len(),
            chars@ == target@,
            forall|j: int| 0 <= j < i ==> !ascii_blank(#[trigger] target@[j]),
        decreases chars.len() - i,
    {
        if chars[i] <= ' ' || chars[i] == '\u{7f}' {
            assert(ascii_blank(target@[i as int]));
            return Err(ExecutionError::InvalidTarget);
        }
        i += 1;
    }
    Ok(())
}

impl Default for ExecutionTarget {
    fn default() -> (target: Self)
        ensures
            target is Local,
    {
        ExecutionTarget::Local
    }
}

impl ExecutionTarget {
    /// The target that an SSH destination names.
    pub fn ssh(host: &str) -> (target: Result<Self, ExecutionError>)
        ensures
            same_outcome(target, ssh_target(host@)),
    {
        match validate_ssh_host(host) {
            Ok(()) => Ok(ExecutionTarget::Ssh { host: host.to_owned() }),
            Err(error) => Err(error),
        }
    }

    /// A target that a provider reaches.
    pub fn extension(scheme: &str, target: &str) -> (built: Result<Self, ExecutionError>)
        ensures
            same_outcome(built, extension_target(scheme@, target@)),
    {
        if let Err(error) = validate_execution_provider_scheme(scheme) {
            return Err(error);
        }
        if let Err(error) = validate_execution_provider_target(target) {
            return Err(error);
        }
        Ok(ExecutionTarget::Extension { scheme: scheme.to_owned(), target: target.to_owned() })
    }

    pub fn is_local(&self) -> (local: bool)
        ensures
            local == (self is Local),
    {
        matches!(self, ExecutionTarget::Local)
    }

    /// The text that names the target.
    pub fn to_text(&self) -> (text: String)
        ensures
            text@ == self@.shown(),
    {
        match self {
            ExecutionTarget::Local => "local".to_owned(),
            ExecutionTarget::Ssh { host } => {
                let mut text = "ssh:".to_owned();
                text.append(host.as_str());
                text
            },
            ExecutionTarget::Extension { scheme, target } => {
                let mut text = scheme.clone();
                text.append(":");
                text.append(target.as_str());
                text
            },
        }
    }

    /// The target that a text names.
    pub fn from_str(value: &str) -> (target: Result<Self, ExecutionError>)
        ensures
            same_outcome(target, parsed(value@)),
    {
        if same_text(value, "local") {
            return Ok(ExecutionTarget::Local);
        }
        let chars = chars_of(value);
        let prefix = chars_of("ssh:");
        if starts_with_chars(chars.as_slice(), prefix.as_slice()) {
            let host = text_of(&chars[prefix.len()..chars.len()]);
            assert(host@ =~= value@.skip("ssh:"@.len() as int));
            return ExecutionTarget::ssh(host.as_str());
        }
        match find_char(chars.as_slice(), ':') {
            Some(colon) => {
                assert(colon < chars.len());
                let scheme = text_of(&chars[0..colon]);
                let target = text_of(&chars[colon + 1..chars.len()]);
                assert(scheme@ =~= value@.take(colon as int));
                assert(target@ =~= value@.skip(colon + 1));
                ExecutionTarget::extension(scheme.as_str(), target.as_str())
            },
            None => Err(ExecutionError::MalformedTarget),
        }
    }

    /// The hosts whose reported directories are taken as this target's own.
    pub fn osc7_authority_with(
        &self,
        local_hostname: Option<String>,
        effective_ssh_hostname: Option<String>,
    ) -> (authority: Osc7Authority)
        ensures
            authority@ == accepted_hosts(
                self@,
                text::opt_text(local_hostname),
                text::opt_text(effective_ssh_hostname),
            ),
    {
        let mut accepted: Vec<String> = Vec::new();
        match self {
            ExecutionTarget::Local => {
                if let Some(hostname) = local_hostname {
                    accepted.push(hostname);
                }
            },
            ExecutionTarget::Ssh { host } => {
                accepted.push(ssh_destination_host(host.as_str()));
                if let Some(hostname) = effective_ssh_hostname {
                    accepted.push(hostname);
                }
            },
            ExecutionTarget::Extension { .. } => {},
        }
        let authority = Osc7Authority { accepted };
        assert(authority@ =~= accepted_hosts(
            self@,
            text::opt_text(local_hostname),
            text::opt_text(effective_ssh_hostname),
        ));
        authority
    }
}

/// What follows the last `@`.
pub open spec fn destination_host(destination: Seq<char>) -> Seq<char>
    decreases destination.len(),
{
    let at = text::char_index(destination, '@');
    if destination.len() == 0 || at >= destination.len() || at < 0 {
        destination
    } else {
        destination_host(destination.skip(at + 1))
    }
}

/// The host part of an SSH destination.
pub fn ssh_destination_host(destination: &str) -> (host: String)
    ensures
        host@ == destination_host(destination@),
{
    let chars = chars_of(destination);
    let mut start: usize = 0;
    let mut i: usize = 0;
    assert(destination@.skip(0) =~= destination@);
    while i < chars.len()
        invariant
            start <= i <= chars.len(),
            chars@ == destination@,
            destination_host(destination@) == destination_host(destination@.skip(start as int)),
            forall|j: int| start <= j < i ==> destination@[j] != '@',
        decreases chars.len() - i,
    {
        if chars[i] == '@' {
            proof {
                let rest = destination@.skip(start as int);
                text::lemma_char_index(rest, '@', i - start);
                assert(rest.skip(i - start + 1) =~= destination@.skip(i + 1));
            }
            start = i + 1;
        }
        i += 1;
    }
    proof {
        let rest = destination@.skip(start as int);
        text::lemma_char_index(rest, '@', rest.len() as int);
    }
    text_of(&chars[start..chars.len()])
}

/// The hosts that a target's terminal may report directories of.
pub open spec fn accepted_hosts(
    target: TargetView,
    local_hostname: Option<Seq<char>>,
    effective_ssh_hostname: Option<Seq<char>>,
) -> Seq<Seq<char>> {
    match target {
        TargetView::Local => match local_hostname {
            Some(hostname) => seq![hostname],
            None => Seq::empty(),
        },
        TargetView::Ssh { host } => match effective_ssh_hostname {
            Some(hostname) => seq![destination_host(host), hostname],
            None => seq![destination_host(host)],
        },
        TargetView::Extension { .. } => Seq::empty(),
    }
}

/// Whether a report from `authority` is taken.
pub open spec fn authority_accepted(
    hosts: Seq<Seq<char>>,
    authority: Option<Seq<char>>,
    remote_hostname: Option<Seq<char>>,
) -> bool {
    match authority {
        None => true,
        Some(authority) => {
            ||| text::same_ignoring_case(authority, "localhost"@)
            ||| remote_hostname matches Some(host) && text::same_ignoring_case(authority, host)
            ||| exists|i: int|
                0 <= i < hosts.len() && text::same_ignoring_case(authority, #[trigger] hosts[i])
        },
    }
}

/// The hosts whose reported directories are taken.
#[derive(Debug, Clone, PartialEq, Eq)]
pub struct Osc7Authority {
    accepted: Vec<String>,
}

impl View for Osc7Authority {
    type V = Seq<Seq<char>>;

    closed spec fn view(&self) -> Seq<Seq<char>> {
        crate::json::texts(self.accepted@)
    }
}

impl Osc7Authority {
    pub fn accepts(&self, authority: Option<&str>, remote_hostname: Option<&str>) -> (accepted:
        bool)
        ensures
            accepted == authority_accepted(
                self@,
                str_view(authority),
                str_view(remote_hostname),
            ),
    {
        let authority = match authority {
            Some(authority) => authority,
            None => return true,
        };
        if eq_ignore_ascii_case(authority, "localhost") {
            return true;
        }
        if let Some(host) = remote_hostname {
            if eq_ignore_ascii_case(authority, host) {
                return true;
            }
        }
        self.names(authority)
    }

    fn names(&self, authority: &str) -> (found: bool)
        ensures
            found == exists|i: int|
                0 <= i < self@.len() && text::same_ignoring_case(
                    authority@,
                    #[trigger] self@[i],
                ),
    {
        let mut i: usize = 0;
        while i < self.accepted.len()
            invariant
                i <= self.accepted.len(),
                forall|j: int|
                    0 <= j < i ==> !text::same_ignoring_case(authority@, #[trigger] self@[j]),
            decreases self.accepted.len() - i,
        {
            assert(self@[i as int] == self.accepted@[i as int]@);
            if eq_ignore_ascii_case(authority, self.accepted[i].as_str()) {
                return true;
            }
            i += 1;
        }
        false
    }
}

pub open spec fn str_view(text: Option<&str>) -> Option<Seq<char>> {
    match text {
        Some(text) => Some(text@),
        None => None,
    }
}

proof fn lemma_first_colon(scheme: Seq<char>, target: Seq<char>)
    requires
        valid_scheme(scheme),
    ensures
        text::char_index(scheme + ":"@ + target, ':') == scheme.len(),
        (scheme + ":"@ + target).take(scheme.len() as int) == scheme,
        (scheme + ":"@ + target).skip(scheme.len() as int + 1) == target,
{
    reveal_strlit(":");
    let value = scheme + ":"@ + target;
    assert forall|j: int| 0 <= j < scheme.len() implies value[j] != ':' by {
        assert(scheme_char(scheme[j]));
        assert(value[j] == scheme[j]);
    }
    text::lemma_char_index(value, ':', scheme.len() as int);
    assert(value.take(scheme.len() as int) =~= scheme);
    assert(value.skip(scheme.len() as int + 1) =~= target);
}

/// A target is found again from the text that names it.
pub proof fn law_text_round_trip(target: TargetView)
    requires
        target.valid(),
    ensures
        parsed(target.shown()) == Ok::<TargetView, ExecutionError>(target),
{
    reveal_strlit("local");
    reveal_strlit("ssh:");
    reveal_strlit("ssh");
    reveal_strlit(":");
    match target {
        TargetView::Local => {},
        TargetView::Ssh { host } => {
            let value = "ssh:"@ + host;
            assert(value[0] == 's');
            assert("ssh:"@ =~= value.subrange(0, 4));
            assert(value.skip(4) =~= host);
        },
        TargetView::Extension { scheme, target } => {
            let value = scheme + ":"@ + target;
            lemma_first_colon(scheme, target);
            assert(value[scheme.len() as int] == ':');
            if value == "local"@ {
                assert(value[scheme.len() as int] != ':');
            }
            if "ssh:"@.is_prefix_of(value) {
                let prefix = value.subrange(0, 4);
                assert(prefix[3] == ':');
                assert(value[3] == ':');
                if scheme.len() > 3 {
                    assert(scheme_char(scheme[3]));
                    assert(value[3] == scheme[3]);
                }
                assert(scheme.len() == 3) by {
                    if scheme.len() < 3 {
                        assert(prefix[scheme.len() as int] == ':');
                    }
                }
                assert(value[0] == prefix[0] && value[1] == prefix[1] && value[2] == prefix[2]);
                assert(scheme =~= "ssh"@);
            }
        },
    }
}

/// A text that names a target is the text that the target shows.
pub proof fn law_accepted_text_is_shown(value: Seq<char>)
    ensures
        parsed(value) matches Ok(target) ==> target.valid() && target.shown() == value,
{
    reveal_strlit("ssh:");
    reveal_strlit(":");
    if let Ok(target) = parsed(value) {
        match target {
            TargetView::Local => {},
            TargetView::Ssh { host } => {
                assert("ssh:"@ + host =~= value);
            },
            TargetView::Extension { scheme, target } => {
                let colon = text::char_index(value, ':');
                text::lemma_char_index_found(value, ':');
                assert(scheme + ":"@ + target =~= value);
            },
        }
    }
}

/// Every host without white space, control characters and a leading dash is a target, and no
/// other text behind `ssh:` is.
pub proof fn law_ssh_targets(host: Seq<char>)
    ensures
        ({
            let plain = host.len() > 0 && host[0] != '-' && forall|i: int|
                0 <= i < host.len() ==> !text::whitespace(#[trigger] host[i]) && !text::control(
                    host[i],
                );
            &&& plain ==> parsed("ssh:"@ + host) == Ok::<TargetView, ExecutionError>(
                TargetView::Ssh { host },
            )
            &&& !plain ==> parsed("ssh:"@ + host) == Err::<TargetView, ExecutionError>(
                ExecutionError::InvalidSshHost,
            )
        }),
{
    reveal_strlit("ssh:");
    reveal_strlit("local");
    let value = "ssh:"@ + host;
    assert("ssh:"@ =~= value.subrange(0, 4));
    assert(value.skip(4) =~= host);
    assert(value[0] == 's' && "local"@[0] == 'l');
}

/// `local` is this machine, and nothing else names it.
pub proof fn law_local_target(value: Seq<char>)
    ensures
        parsed(value) == Ok::<TargetView, ExecutionError>(TargetView::Local) <==> value
            == "local"@,
{
}

/// A text with neither of the built-in names before its first colon names what a provider
/// reaches; a text without a colon names nothing.
pub proof fn law_provider_targets(scheme: Seq<char>, target: Seq<char>)
    requires
        !scheme.contains(':'),
        scheme != "ssh"@,
    ensures
        parsed(scheme + ":"@ + target) matches Ok(found) ==> found == (TargetView::Extension {
            scheme,
            target,
        }),
        parsed(scheme + ":"@ + target) is Ok <==> {
            &&& scheme.len() > 0 && 'a' <= scheme[0] <= 'z' && scheme != "local"@
            &&& forall|i: int|
                0 <= i < scheme.len() ==> ('a' <= #[trigger] scheme[i] <= 'z' || '0' <= scheme[i]
                    <= '9' || scheme[i] == '+' || scheme[i] == '.' || scheme[i] == '-')
            &&& target.len() > 0
            &&& forall|i: int|
                0 <= i < target.len() ==> #[trigger] target[i] > ' ' && target[i] != '\u{7f}'
        },
        scheme != "local"@ ==> parsed(scheme) == Err::<TargetView, ExecutionError>(
            ExecutionError::MalformedTarget,
        ),
{
    reveal_strlit(":");
    reveal_strlit("ssh:");
    reveal_strlit("ssh");
    reveal_strlit("local");
    let value = scheme + ":"@ + target;
    assert(value[scheme.len() as int] == ':');
    assert forall|i: int| 0 <= i < scheme.len() implies value[i] != ':' && scheme[i] != ':' by {
        if scheme[i] == ':' {
            assert(scheme.contains(':'));
        }
        assert(value[i] == scheme[i]);
    }
    text::lemma_char_index(value, ':', scheme.len() as int);
    text::lemma_char_index(scheme, ':', scheme.len() as int);
    assert(value.take(scheme.len() as int) =~= scheme);
    assert(value.skip(scheme.len() as int + 1) =~= target);
    if "ssh:"@.is_prefix_of(value) {
        assert(value[3] == "ssh:"@[3] && value[0] == "ssh:"@[0] && value[1] == "ssh:"@[1]
            && value[2] == "ssh:"@[2]);
        assert(scheme.len() == 3);
        assert(scheme =~= "ssh"@);
        assert(false);
    }
    if "ssh:"@.is_prefix_of(scheme) {
        assert(scheme[3] == "ssh:"@[3]);
        assert(false);
    }
    if value == "local"@ {
        assert(value[scheme.len() as int] != ':');
        assert(false);
    }
}

/// A directory is believed of this machine, of the host that the terminal said it runs on,
/// and of the target's own hosts, however their letters are written; of no other host.
pub proof fn law_only_known_hosts_report(
    target: TargetView,
    local: Option<Seq<char>>,
    effective: Option<Seq<char>>,
    authority: Seq<char>,
    remote: Option<Seq<char>>,
)
    ensures
        ({
            let hosts = accepted_hosts(target, local, effective);
            &&& authority_accepted(hosts, None, remote)
            &&& authority_accepted(hosts, Some(authority), remote) <==> {
                ||| text::same_ignoring_case(authority, "localhost"@)
                ||| remote is Some && text::same_ignoring_case(authority, remote->0)
                ||| target is Local && local is Some && text::same_ignoring_case(
                    authority,
                    local->0,
                )
                ||| target is Ssh && text::same_ignoring_case(
                    authority,
                    destination_host(target->host),
                )
                ||| target is Ssh && effective is Some && text::same_ignoring_case(
                    authority,
                    effective->0,
                )
            }
        }),
{
    let hosts = accepted_hosts(target, local, effective);
    match target {
        TargetView::Local => {
            if local is Some {
                assert(hosts[0] == local->0);
            }
        },
        TargetView::Ssh { host } => {
            assert(hosts[0] == destination_host(host));
            if effective is Some {
                assert(hosts[1] == effective->0);
            }
        },
        TargetView::Extension { .. } => {},
    }
}

proof fn lemma_first_char(chars: Seq<char>, ch: char)
    ensures
        0 <= text::char_index(chars, ch) <= chars.len(),
        text::char_index(chars, ch) < chars.len() ==> chars[text::char_index(chars, ch)] == ch,
        forall|i: int| 0 <= i < text::char_index(chars, ch) ==> chars[i] != ch,
    decreases chars.len(),
{
    if chars.len() > 0 && chars[0] != ch {
        let rest = chars.drop_first();
        lemma_first_char(rest, ch);
        assert forall|i: int| 0 <= i < text::char_index(chars, ch) implies chars[i] != ch by {
            if i > 0 {
                assert(rest[i - 1] == chars[i]);
            }
        }
    }
}

/// The host of a destination is what follows the user's name: the longest end of it that
/// holds no `@`.
pub proof fn law_destination_host(user: Seq<char>, host: Seq<char>)
    requires
        !host.contains('@'),
    ensures
        destination_host(host) == host,
        destination_host(user + seq!['@'] + host) == host,
    decreases user.len(),
{
    assert forall|i: int| 0 <= i < host.len() implies host[i] != '@' by {
        assert(host.contains(host[i]));
    }
    text::lemma_char_index(host, '@', host.len() as int);
    let whole = user + seq!['@'] + host;
    let at = text::char_index(user, '@');
    lemma_first_char(user, '@');
    text::lemma_char_index(whole, '@', at);
    if at == user.len() {
        assert(whole.skip(at + 1) =~= host);
    } else {
        assert(whole.skip(at + 1) =~= user.skip(at + 1) + seq!['@'] + host);
        law_destination_host(user.skip(at + 1), host);
    }
}

} // verus!
