//! How an agent's process is started again: what a launch profile may hold, and
//! how it is bound to the receipt that carries it.
use vstd::prelude::*;
use vstd::utf8::encode_utf8;

use crate::fingerprint::{eight_bytes, framed};
use crate::model::{fails, CliFailure};
use crate::outside::{hex_digest, sha256_hex};
use crate::text::{
    all_hex, all_lower_hex, byte_len, byte_length, char_is_alnum, char_is_control, concat, concat3,
    contains, contains_space, full_sha, has_infix, has_prefix, has_space, has_suffix, is_alnum,
    is_control, is_full_sha, only_hex, only_lower_hex, opt_view, split, split_on, starts_with,
    ends_with, str_eq, to_bytes, to_chars, views,
};
use crate::text_map::TextMap;

verus! {

/// The most arguments of a command line.
pub const MAX_ARGV_ITEMS: usize = 64;

/// The most bytes of one argument.
pub const MAX_ARG_BYTES: usize = 4_096;

/// The most bytes of all arguments together.
pub const MAX_ARGV_BYTES: usize = 16_384;

/// The most bytes of a name.
pub const MAX_METADATA_BYTES: usize = 256;

/// The most bytes of a path.
pub const MAX_PATH_BYTES: usize = 4_096;

/// The most bytes of a link.
pub const MAX_CONTEXT_URL_BYTES: usize = 4_096;

/// The most bytes of a stored profile.
pub const MAX_PROFILE_BYTES: u64 = 65_536;

/// Who runs the agent, and with which model.
#[derive(Clone, Debug, PartialEq, Eq)]
pub struct ProviderMetadataV1 {
    pub provider: String,
    pub account: Option<String>,
    pub model: Option<String>,
    /// The effort's name.
    pub reasoning_effort: Option<String>,
}

/// The session that is resumed.
#[derive(Clone, Debug, PartialEq, Eq)]
pub struct SessionProvenanceV1 {
    pub agent_provider: String,
    pub provider_session_id: String,
}

/// The checkpoint that the agent starts from.
#[derive(Clone, Debug, PartialEq, Eq)]
pub struct CheckpointProvenanceV1 {
    pub checkpoint_id: String,
    pub generation: u64,
    pub digest: String,
}

/// The worktree that the agent works in.
#[derive(Clone, Debug, PartialEq, Eq)]
pub struct WorktreeProvenanceV1 {
    pub repository: String,
    pub path: String,
    pub head_sha: String,
    pub lineage_id: String,
}

/// What a fresh agent must be told before it can take over.
#[derive(Clone, Debug, PartialEq, Eq)]
pub struct ContinuationBootstrapV1 {
    pub workstream_handle: String,
    pub context_url: Option<String>,
    pub plan_sha256: String,
    pub root_revision: u64,
    pub issue_revision: u64,
    pub projection_revision: u64,
    pub material_event_revision: u64,
    pub checkpoint_id: String,
    pub checkpoint_generation: u64,
    pub checkpoint_digest: String,
    pub repository: String,
    pub head_sha: String,
    pub expected_resume_context_digest: String,
    pub success_continuation_digest: String,
    pub failure_continuation_digest: String,
}

/// Whether a session may be continued by a fresh agent.
#[derive(Clone, Copy, Debug, PartialEq, Eq, Structural)]
pub enum RecoveryPolicyV1 {
    ExactSessionOnly,
    ExactSessionThenFreshCheckpoint,
    FreshCheckpointOnly,
}

/// How an agent's process is started again.
#[derive(Debug)]
pub struct LaunchProfileV1 {
    pub schema_version: u32,
    pub launch_argv: Vec<String>,
    pub resume_argv: Vec<String>,
    pub route_environment: TextMap<String>,
    pub provider: ProviderMetadataV1,
    pub session: Option<SessionProvenanceV1>,
    pub checkpoint: CheckpointProvenanceV1,
    pub worktree: WorktreeProvenanceV1,
    pub continuation_bootstrap: Option<ContinuationBootstrapV1>,
    pub recovery_policy: RecoveryPolicyV1,
}

/// The first of two errors.
pub open spec fn first_error(a: Option<Seq<char>>, b: Option<Seq<char>>) -> Option<Seq<char>> {
    if a is Some {
        a
    } else {
        b
    }
}

/// Whether a result is a success, or a failure that says a text.
pub open spec fn answers(r: Result<(), CliFailure>, error: Option<Seq<char>>) -> bool {
    match error {
        None => r is Ok,
        Some(text) => fails(r, 1, text),
    }
}

/// Whether a text holds a control character.
pub open spec fn has_control(s: Seq<char>) -> bool {
    exists|i: int| 0 <= i < s.len() && is_control(#[trigger] s[i])
}

/// Whether a text holds a control character.
pub fn contains_control(s: &str) -> (r: bool)
    ensures
        r == has_control(s@),
{
    let chars = to_chars(s);
    let mut i: usize = 0;
    while i < chars.len()
        invariant
            i <= chars.len(),
            chars@ == s@,
            forall|k: int| 0 <= k < i ==> !is_control(#[trigger] s@[k]),
        decreases chars.len() - i,
    {
        if char_is_control(chars[i]) {
            return true;
        }
        i = i + 1;
    }
    false
}

/// Whether a text holds a NUL character.
pub open spec fn has_nul(s: Seq<char>) -> bool {
    exists|i: int| 0 <= i < s.len() && #[trigger] s[i] == '\0'
}

/// Whether a text holds a NUL character.
pub fn contains_nul(s: &str) -> (r: bool)
    ensures
        r == has_nul(s@),
{
    let chars = to_chars(s);
    let mut i: usize = 0;
    while i < chars.len()
        invariant
            i <= chars.len(),
            chars@ == s@,
            forall|k: int| 0 <= k < i ==> #[trigger] s@[k] != '\0',
        decreases chars.len() - i,
    {
        if chars[i] == '\0' {
            return true;
        }
        i = i + 1;
    }
    false
}

/// Whether an argument is too long or holds a NUL character.
pub open spec fn bad_argument(s: Seq<char>) -> bool {
    byte_length(s) > MAX_ARG_BYTES || has_nul(s)
}

/// The bytes of all arguments together.
pub open spec fn argv_bytes(argv: Seq<String>) -> nat
    decreases argv.len(),
{
    if argv.len() == 0 {
        0
    } else {
        argv_bytes(argv.drop_last()) + byte_length(argv.last()@)
    }
}

/// What is wrong with a command line.
pub open spec fn argv_error(label: Seq<char>, argv: Seq<String>) -> Option<Seq<char>> {
    if argv.len() == 0 || argv.len() > MAX_ARGV_ITEMS || argv[0]@.len() == 0 {
        Some(label + " argv must contain 1-64 items and a non-empty executable"@)
    } else if exists|i: int| 0 <= i < argv.len() && bad_argument(#[trigger] argv[i]@) {
        Some(label + " argv contains an invalid or oversized item"@)
    } else if argv_bytes(argv) > MAX_ARGV_BYTES {
        Some(label + " argv exceeds 16 KiB"@)
    } else {
        None
    }
}

/// Refuses a command line that is empty, too long or holds what cannot be passed.
pub fn validate_argv(label: &str, argv: &Vec<String>) -> (r: Result<(), CliFailure>)
    ensures
        answers(r, argv_error(label@, argv@)),
{
    if argv.len() == 0 || argv.len() > MAX_ARGV_ITEMS || argv[0].as_str().is_empty() {
        return Err(
            CliFailure::new(
                1,
                concat(label, " argv must contain 1-64 items and a non-empty executable").as_str(),
            ),
        );
    }
    let mut total: usize = 0;
    let mut i: usize = 0;
    proof {
        assert(argv@.take(0) =~= Seq::<String>::empty());
    }
    while i < argv.len()
        invariant
            i <= argv.len(),
            0 < argv.len() <= MAX_ARGV_ITEMS,
            argv@[0]@.len() > 0,
            total == argv_bytes(argv@.take(i as int)),
            total <= i * MAX_ARG_BYTES,
            forall|k: int| 0 <= k < i ==> !bad_argument(#[trigger] argv@[k]@),
        decreases argv.len() - i,
    {
        let size: usize = byte_len(argv[i].as_str());
        if size > MAX_ARG_BYTES || contains_nul(argv[i].as_str()) {
            proof {
                assert(bad_argument(argv@[i as int]@));
            }
            return Err(
                CliFailure::new(
                    1,
                    concat(label, " argv contains an invalid or oversized item").as_str(),
                ),
            );
        }
        proof {
            assert(argv@.take(i + 1).drop_last() =~= argv@.take(i as int));
            assert(i * MAX_ARG_BYTES + MAX_ARG_BYTES == (i + 1) * MAX_ARG_BYTES) by (nonlinear_arith);
            assert((i + 1) * MAX_ARG_BYTES <= 64 * 4096) by (nonlinear_arith)
                requires
                    i + 1 <= 64,
                    MAX_ARG_BYTES == 4096,
            ;
        }
        total = total + size;
        i = i + 1;
    }
    proof {
        assert(argv@.take(i as int) =~= argv@);
    }
    if total > MAX_ARGV_BYTES {
        return Err(CliFailure::new(1, concat(label, " argv exceeds 16 KiB").as_str()));
    }
    Ok(())
}

/// Whether a text can be a name: it is there, short, and holds no control
/// character.
pub open spec fn is_metadata(value: Seq<char>) -> bool {
    value.len() > 0 && byte_length(value) <= MAX_METADATA_BYTES && !has_control(value)
}

/// What is wrong with a name.
pub open spec fn metadata_error(label: Seq<char>, value: Seq<char>) -> Option<Seq<char>> {
    if is_metadata(value) {
        None
    } else {
        Some(label + " must be 1-256 non-control bytes"@)
    }
}

/// Refuses what cannot be a name.
pub fn validate_metadata(label: &str, value: &str) -> (r: Result<(), CliFailure>)
    ensures
        answers(r, metadata_error(label@, value@)),
{
    if value.is_empty() || byte_len(value) > MAX_METADATA_BYTES || contains_control(value) {
        Err(CliFailure::new(1, concat(label, " must be 1-256 non-control bytes").as_str()))
    } else {
        Ok(())
    }
}

/// Whether a character may stand in a repository's name.
pub open spec fn slug_char(c: char) -> bool {
    is_alnum(c) || c == '-' || c == '_' || c == '.'
}

/// Whether a text is made of such characters.
pub open spec fn slug_text(s: Seq<char>) -> bool {
    s.len() > 0 && forall|i: int| 0 <= i < s.len() ==> slug_char(#[trigger] s[i])
}

fn is_slug_text(s: &str) -> (r: bool)
    ensures
        r == slug_text(s@),
{
    let chars = to_chars(s);
    if chars.len() == 0 {
        return false;
    }
    let mut i: usize = 0;
    while i < chars.len()
        invariant
            i <= chars.len(),
            chars@ == s@,
            forall|k: int| 0 <= k < i ==> slug_char(#[trigger] s@[k]),
        decreases chars.len() - i,
    {
        let c = chars[i];
        if !(char_is_alnum(c) || c == '-' || c == '_' || c == '.') {
            return false;
        }
        i = i + 1;
    }
    true
}

/// What is wrong with a worktree's repository.
pub open spec fn repository_error(value: Seq<char>) -> Option<Seq<char>> {
    let parts = split_on(value, '/');
    if parts.len() == 2 && slug_text(parts[0]) && slug_text(parts[1]) {
        None
    } else {
        Some("worktree repository must be an owner/repo slug"@)
    }
}

/// Refuses a repository that is not named by its owner and its name.
pub fn validate_repository(value: &str) -> (r: Result<(), CliFailure>)
    ensures
        answers(r, repository_error(value@)),
{
    let parts = split(value, '/');
    proof {
        assert(views(parts@).len() == parts@.len());
        if parts@.len() == 2 {
            assert(views(parts@)[0] == parts@[0]@);
            assert(views(parts@)[1] == parts@[1]@);
        }
    }
    if parts.len() == 2 && is_slug_text(parts[0].as_str()) && is_slug_text(parts[1].as_str()) {
        Ok(())
    } else {
        Err(CliFailure::new(1, "worktree repository must be an owner/repo slug"))
    }
}

/// What is wrong with a digest.
pub open spec fn sha256_error(label: Seq<char>, value: Seq<char>) -> Option<Seq<char>> {
    if value.len() == 64 && all_hex(value) {
        None
    } else {
        Some(label + " must be 64 hexadecimal characters"@)
    }
}

/// Refuses what is no digest.
pub fn validate_sha256(label: &str, value: &str) -> (r: Result<(), CliFailure>)
    ensures
        answers(r, sha256_error(label@, value@)),
{
    if value.unicode_len() == 64 && only_hex(value) {
        Ok(())
    } else {
        Err(CliFailure::new(1, concat(label, " must be 64 hexadecimal characters").as_str()))
    }
}

/// What is wrong with a digest in lower case.
pub open spec fn lower_sha256_error(label: Seq<char>, value: Seq<char>) -> Option<Seq<char>> {
    if value.len() == 64 && all_lower_hex(value) {
        None
    } else {
        Some(label + " must be 64 lowercase hexadecimal characters"@)
    }
}

/// Refuses what is no digest in lower case.
pub fn validate_lower_sha256(label: &str, value: &str) -> (r: Result<(), CliFailure>)
    ensures
        answers(r, lower_sha256_error(label@, value@)),
{
    if value.unicode_len() == 64 && only_lower_hex(value) {
        Ok(())
    } else {
        Err(
            CliFailure::new(1, concat(label, " must be 64 lowercase hexadecimal characters").as_str()),
        )
    }
}

/// Where the host of a link ends.
pub open spec fn authority_end(s: Seq<char>) -> int
    decreases s.len(),
{
    if s.len() == 0 || s[0] == '/' || s[0] == '?' || s[0] == '#' {
        0
    } else {
        1 + authority_end(s.skip(1))
    }
}

/// The part of a link after its scheme.
pub open spec fn after_scheme(value: Seq<char>) -> Option<Seq<char>> {
    if has_prefix(value, "https://"@) {
        Some(value.skip("https://"@.len() as int))
    } else if has_prefix(value, "http://"@) {
        Some(value.skip("http://"@.len() as int))
    } else {
        None
    }
}

/// Whether a text is a link that can be handed on: by a known scheme, with a
/// host, without user, fragment, space or control character.
pub open spec fn good_link(value: Seq<char>) -> bool {
    &&& byte_length(value) <= MAX_CONTEXT_URL_BYTES
    &&& !has_space(value)
    &&& !has_control(value)
    &&& !value.contains('#')
    &&& after_scheme(value) matches Some(rest) && {
        let host = rest.take(authority_end(rest));
        host.len() > 0 && !host.contains('@')
    }
}

/// What is wrong with a link.
pub open spec fn link_error(value: Seq<char>) -> Option<Seq<char>> {
    if good_link(value) {
        None
    } else {
        Some(
            "bootstrap context URL must be a bounded canonical HTTP(S) URL without userinfo or fragment"@,
        )
    }
}

proof fn authority_end_bounds(s: Seq<char>)
    ensures
        0 <= authority_end(s) <= s.len(),
    decreases s.len(),
{
    if !(s.len() == 0 || s[0] == '/' || s[0] == '?' || s[0] == '#') {
        authority_end_bounds(s.skip(1));
    }
}

/// Whether the host of a link, from a position on, is there and names no user.
fn good_host(chars: &Vec<char>, start: usize) -> (r: bool)
    requires
        start <= chars@.len(),
    ensures
        r == ({
            let rest = chars@.skip(start as int);
            let host = rest.take(authority_end(rest));
            host.len() > 0 && !host.contains('@')
        }),
{
    let ghost rest = chars@.skip(start as int);
    let ghost end = authority_end(rest);
    let mut i: usize = start;
    let mut user = false;
    proof {
        authority_end_bounds(rest);
        assert(rest.skip(0) =~= rest);
    }
    while i < chars.len() && chars[i] != '/' && chars[i] != '?' && chars[i] != '#'
        invariant
            start <= i <= chars.len(),
            rest == chars@.skip(start as int),
            end == authority_end(rest),
            end == (i - start) + authority_end(rest.skip(i - start)),
            user == exists|k: int| 0 <= k < i - start && #[trigger] rest[k] == '@',
        decreases chars.len() - i,
    {
        proof {
            assert(rest.skip(i - start)[0] == chars@[i as int]);
            assert(rest.skip(i - start).skip(1) =~= rest.skip(i - start + 1));
            assert(rest[i - start] == chars@[i as int]);
        }
        if chars[i] == '@' {
            user = true;
        }
        i = i + 1;
    }
    proof {
        let left = rest.skip(i - start);
        if i < chars.len() {
            assert(left[0] == chars@[i as int]);
        }
        assert(end == i - start);
        let host = rest.take(end);
        if host.contains('@') {
            let k = choose|k: int| 0 <= k < host.len() && host[k] == '@';
            assert(rest[k] == '@');
        }
        if user {
            let k = choose|k: int| 0 <= k < i - start && #[trigger] rest[k] == '@';
            assert(host[k] == '@');
        }
    }
    i > start && !user
}

/// Refuses a link that cannot be handed on.
pub fn validate_context_url(value: &str) -> (r: Result<(), CliFailure>)
    ensures
        answers(r, link_error(value@)),
{
    let chars = to_chars(value);
    let mut fragment = false;
    let mut i: usize = 0;
    while i < chars.len()
        invariant
            i <= chars.len(),
            chars@ == value@,
            fragment == exists|k: int| 0 <= k < i && #[trigger] value@[k] == '#',
        decreases chars.len() - i,
    {
        if chars[i] == '#' {
            fragment = true;
        }
        i = i + 1;
    }
    let start: Option<usize> = if starts_with(value, "https://") {
        Some(8)
    } else if starts_with(value, "http://") {
        Some(7)
    } else {
        None
    };
    proof {
        reveal_strlit("https://");
        reveal_strlit("http://");
        if fragment {
            let k = choose|k: int| 0 <= k < i && #[trigger] value@[k] == '#';
            assert(value@[k] == '#');
        } else if value@.contains('#') {
            let k = choose|k: int| 0 <= k < value@.len() && value@[k] == '#';
            assert(value@[k] == '#');
        }
    }
    let host = match start {
        Some(n) => good_host(&chars, n),
        None => false,
    };
    if byte_len(value) <= MAX_CONTEXT_URL_BYTES && !contains_space(value) && !contains_control(value)
        && !fragment && host {
        Ok(())
    } else {
        Err(
            CliFailure::new(
                1,
                "bootstrap context URL must be a bounded canonical HTTP(S) URL without userinfo or fragment",
            ),
        )
    }
}

/// Whether a workstream's handle can be handed on.
pub open spec fn good_handle(s: Seq<char>) -> bool {
    s.len() > 0 && byte_length(s) <= 124 && !has_space(s) && !has_control(s)
}

/// Whether a bootstrap speaks of the checkpoint, the repository and the head of
/// its profile.
pub open spec fn bound_to_profile(
    bootstrap: ContinuationBootstrapV1,
    profile: LaunchProfileV1,
) -> bool {
    &&& bootstrap.checkpoint_id@ == profile.checkpoint.checkpoint_id@
    &&& bootstrap.checkpoint_generation == profile.checkpoint.generation
    &&& bootstrap.checkpoint_digest@ == profile.checkpoint.digest@
    &&& bootstrap.repository@ == profile.worktree.repository@
    &&& bootstrap.head_sha@ == profile.worktree.head_sha@
}

/// What is wrong with a bootstrap.
pub open spec fn bootstrap_error(
    bootstrap: ContinuationBootstrapV1,
    profile: LaunchProfileV1,
) -> Option<Seq<char>> {
    if !good_handle(bootstrap.workstream_handle@) {
        Some("bootstrap workstream handle must be 1-124 non-whitespace characters"@)
    } else if opt_view(bootstrap.context_url) is Some && link_error(
        opt_view(bootstrap.context_url)->Some_0,
    ) is Some {
        link_error(opt_view(bootstrap.context_url)->Some_0)
    } else if lower_sha256_error("bootstrap plan digest"@, bootstrap.plan_sha256@) is Some {
        lower_sha256_error("bootstrap plan digest"@, bootstrap.plan_sha256@)
    } else if bootstrap.projection_revision == 0 {
        Some("bootstrap projection revision must be positive"@)
    } else if metadata_error("bootstrap checkpoint ID"@, bootstrap.checkpoint_id@) is Some {
        metadata_error("bootstrap checkpoint ID"@, bootstrap.checkpoint_id@)
    } else if bootstrap.checkpoint_generation == 0 {
        Some("bootstrap checkpoint generation must be positive"@)
    } else {
        let digests = first_error(
            lower_sha256_error("bootstrap checkpoint digest"@, bootstrap.checkpoint_digest@),
            first_error(
                lower_sha256_error(
                    "bootstrap expected resume-context digest"@,
                    bootstrap.expected_resume_context_digest@,
                ),
                first_error(
                    lower_sha256_error(
                        "bootstrap success continuation digest"@,
                        bootstrap.success_continuation_digest@,
                    ),
                    lower_sha256_error(
                        "bootstrap failure continuation digest"@,
                        bootstrap.failure_continuation_digest@,
                    ),
                ),
            ),
        );
        if digests is Some {
            digests
        } else if repository_error(bootstrap.repository@) is Some {
            repository_error(bootstrap.repository@)
        } else if !full_sha(bootstrap.head_sha@) || !all_lower_hex(bootstrap.head_sha@) {
            Some("bootstrap head must be a full lowercase 40-character SHA-1"@)
        } else if !bound_to_profile(bootstrap, profile) {
            Some("bootstrap checkpoint, repository, or head does not match launch provenance"@)
        } else {
            None
        }
    }
}

/// Refuses a bootstrap that a fresh agent could not start from.
pub fn validate_continuation_bootstrap(
    profile: &LaunchProfileV1,
    bootstrap: &ContinuationBootstrapV1,
) -> (r: Result<(), CliFailure>)
    ensures
        answers(r, bootstrap_error(*bootstrap, *profile)),
{
    let handle = bootstrap.workstream_handle.as_str();
    if handle.is_empty() || byte_len(handle) > 124 || contains_space(handle) || contains_control(
        handle,
    ) {
        return Err(
            CliFailure::new(
                1,
                "bootstrap workstream handle must be 1-124 non-whitespace characters",
            ),
        );
    }
    match &bootstrap.context_url {
        Some(url) => match validate_context_url(url.as_str()) {
            Ok(_) => {},
            Err(failure) => return Err(failure),
        },
        None => {},
    }
    match validate_lower_sha256("bootstrap plan digest", bootstrap.plan_sha256.as_str()) {
        Ok(_) => {},
        Err(failure) => return Err(failure),
    }
    if bootstrap.projection_revision == 0 {
        return Err(CliFailure::new(1, "bootstrap projection revision must be positive"));
    }
    match validate_metadata("bootstrap checkpoint ID", bootstrap.checkpoint_id.as_str()) {
        Ok(_) => {},
        Err(failure) => return Err(failure),
    }
    if bootstrap.checkpoint_generation == 0 {
        return Err(CliFailure::new(1, "bootstrap checkpoint generation must be positive"));
    }
    match validate_lower_sha256(
        "bootstrap checkpoint digest",
        bootstrap.checkpoint_digest.as_str(),
    ) {
        Ok(_) => {},
        Err(failure) => return Err(failure),
    }
    match validate_lower_sha256(
        "bootstrap expected resume-context digest",
        bootstrap.expected_resume_context_digest.as_str(),
    ) {
        Ok(_) => {},
        Err(failure) => return Err(failure),
    }
    match validate_lower_sha256(
        "bootstrap success continuation digest",
        bootstrap.success_continuation_digest.as_str(),
    ) {
        Ok(_) => {},
        Err(failure) => return Err(failure),
    }
    match validate_lower_sha256(
        "bootstrap failure continuation digest",
        bootstrap.failure_continuation_digest.as_str(),
    ) {
        Ok(_) => {},
        Err(failure) => return Err(failure),
    }
    match validate_repository(bootstrap.repository.as_str()) {
        Ok(_) => {},
        Err(failure) => return Err(failure),
    }
    if !is_full_sha(bootstrap.head_sha.as_str()) || !only_lower_hex(bootstrap.head_sha.as_str()) {
        return Err(
            CliFailure::new(1, "bootstrap head must be a full lowercase 40-character SHA-1"),
        );
    }
    if !(str_eq(bootstrap.checkpoint_id.as_str(), profile.checkpoint.checkpoint_id.as_str())
        && bootstrap.checkpoint_generation == profile.checkpoint.generation && str_eq(
        bootstrap.checkpoint_digest.as_str(),
        profile.checkpoint.digest.as_str(),
    ) && str_eq(bootstrap.repository.as_str(), profile.worktree.repository.as_str()) && str_eq(
        bootstrap.head_sha.as_str(),
        profile.worktree.head_sha.as_str(),
    )) {
        return Err(
            CliFailure::new(
                1,
                "bootstrap checkpoint, repository, or head does not match launch provenance",
            ),
        );
    }
    Ok(())
}

/// Whether a character may stand in the name of a route variable.
pub open spec fn variable_char(c: char) -> bool {
    ('A' <= c && c <= 'Z') || ('0' <= c && c <= '9') || c == '_'
}

/// Whether an entry can stand in the route environment.
pub open spec fn good_variable(name: Seq<char>, value: Seq<char>) -> bool {
    &&& name.len() > 0
    &&& byte_length(name) <= 128
    &&& forall|i: int| 0 <= i < name.len() ==> variable_char(#[trigger] name[i])
    &&& has_prefix(name, "SUBROUTER_"@)
    &&& value.len() > 0
    &&& byte_length(value) <= MAX_ARG_BYTES
    &&& !has_control(value)
}

fn is_good_variable(name: &str, value: &str) -> (r: bool)
    ensures
        r == good_variable(name@, value@),
{
    let chars = to_chars(name);
    let mut i: usize = 0;
    while i < chars.len()
        invariant
            i <= chars.len(),
            chars@ == name@,
            forall|k: int| 0 <= k < i ==> variable_char(#[trigger] name@[k]),
        decreases chars.len() - i,
    {
        let c = chars[i];
        if !(('A' <= c && c <= 'Z') || ('0' <= c && c <= '9') || c == '_') {
            return false;
        }
        i = i + 1;
    }
    !name.is_empty() && byte_len(name) <= 128 && starts_with(name, "SUBROUTER_") && !value.is_empty()
        && byte_len(value) <= MAX_ARG_BYTES && !contains_control(value)
}

/// What is wrong with a route environment.
pub open spec fn environment_error(environment: TextMap<String>) -> Option<Seq<char>> {
    if environment.keys().len() > 16 {
        Some("native route environment is too large"@)
    } else if exists|i: int|
        0 <= i < environment.keys().len() && !good_variable(
            #[trigger] environment.keys()[i],
            environment.values()[i]@,
        ) {
        Some("native route environment is invalid"@)
    } else {
        None
    }
}

/// Refuses a route environment that is too large or holds what cannot stand there.
pub fn validate_route_environment(profile: &LaunchProfileV1) -> (r: Result<(), CliFailure>)
    ensures
        answers(r, environment_error(profile.route_environment)),
{
    let environment = &profile.route_environment;
    let n: usize = environment.len();
    if n > 16 {
        return Err(CliFailure::new(1, "native route environment is too large"));
    }
    let mut i: usize = 0;
    while i < n
        invariant
            i <= n,
            n <= 16,
            n == environment.keys().len(),
            n == environment.values().len(),
            environment == profile.route_environment,
            forall|k: int|
                0 <= k < i ==> good_variable(
                    #[trigger] environment.keys()[k],
                    environment.values()[k]@,
                ),
        decreases n - i,
    {
        if !is_good_variable(
            environment.key_at(i).as_str(),
            environment.value_at(i).as_str(),
        ) {
            proof {
                assert(!good_variable(
                    environment.keys()[i as int],
                    environment.values()[i as int]@,
                ));
            }
            return Err(CliFailure::new(1, "native route environment is invalid"));
        }
        i = i + 1;
    }
    Ok(())
}

/// What is wrong with an optional name.
pub open spec fn optional_metadata_error(label: Seq<char>, value: Option<Seq<char>>) -> Option<
    Seq<char>,
> {
    match value {
        Some(text) => metadata_error(label, text),
        None => None,
    }
}

/// What is wrong with a worktree's path; `absolute` says that it is one from the
/// root.
pub open spec fn path_error(path: Seq<char>, absolute: bool) -> Option<Seq<char>> {
    if !absolute || byte_length(path) > MAX_PATH_BYTES || has_nul(path) {
        Some("worktree path must be a bounded absolute path without NUL bytes"@)
    } else {
        None
    }
}

/// What is wrong with a profile, of what comes before its checkpoint.
pub open spec fn head_error(profile: LaunchProfileV1) -> Option<Seq<char>> {
    if profile.schema_version != 1 {
        Some("unsupported launch profile schema"@)
    } else {
        first_error(
            argv_error("launch"@, profile.launch_argv@),
            first_error(
                argv_error("resume"@, profile.resume_argv@),
                first_error(
                    environment_error(profile.route_environment),
                    first_error(
                        metadata_error("provider ID"@, profile.provider.provider@),
                        first_error(
                            optional_metadata_error(
                                "account ID"@,
                                opt_view(profile.provider.account),
                            ),
                            first_error(
                                optional_metadata_error(
                                    "model ID"@,
                                    opt_view(profile.provider.model),
                                ),
                                match profile.session {
                                    Some(session) => first_error(
                                        metadata_error(
                                            "session agent provider"@,
                                            session.agent_provider@,
                                        ),
                                        metadata_error(
                                            "provider session ID"@,
                                            session.provider_session_id@,
                                        ),
                                    ),
                                    None => None,
                                },
                            ),
                        ),
                    ),
                ),
            ),
        )
    }
}

/// What is wrong with a profile, from its checkpoint on.
pub open spec fn tail_error(profile: LaunchProfileV1, absolute: bool) -> Option<Seq<char>> {
    first_error(
        metadata_error("checkpoint ID"@, profile.checkpoint.checkpoint_id@),
        if profile.checkpoint.generation == 0 {
            Some("checkpoint generation must be positive"@)
        } else {
            first_error(
                sha256_error("checkpoint digest"@, profile.checkpoint.digest@),
                first_error(
                    repository_error(profile.worktree.repository@),
                    first_error(
                        path_error(profile.worktree.path@, absolute),
                        if !full_sha(profile.worktree.head_sha@) {
                            Some("worktree head must be a full 40-character SHA-1"@)
                        } else {
                            first_error(
                                metadata_error(
                                    "worktree lineage ID"@,
                                    profile.worktree.lineage_id@,
                                ),
                                match profile.continuation_bootstrap {
                                    Some(bootstrap) => bootstrap_error(bootstrap, profile),
                                    None => None,
                                },
                            )
                        },
                    ),
                ),
            )
        },
    )
}

/// What is wrong with a profile.
pub open spec fn profile_error(profile: LaunchProfileV1, absolute: bool) -> Option<Seq<char>> {
    first_error(head_error(profile), tail_error(profile, absolute))
}

fn validate_head(profile: &LaunchProfileV1) -> (r: Result<(), CliFailure>)
    ensures
        answers(r, head_error(*profile)),
{
    if profile.schema_version != 1 {
        return Err(CliFailure::new(1, "unsupported launch profile schema"));
    }
    match validate_argv("launch", &profile.launch_argv) {
        Ok(_) => {},
        Err(failure) => return Err(failure),
    }
    match validate_argv("resume", &profile.resume_argv) {
        Ok(_) => {},
        Err(failure) => return Err(failure),
    }
    match validate_route_environment(profile) {
        Ok(_) => {},
        Err(failure) => return Err(failure),
    }
    match validate_metadata("provider ID", profile.provider.provider.as_str()) {
        Ok(_) => {},
        Err(failure) => return Err(failure),
    }
    match &profile.provider.account {
        Some(account) => match validate_metadata("account ID", account.as_str()) {
            Ok(_) => {},
            Err(failure) => return Err(failure),
        },
        None => {},
    }
    match &profile.provider.model {
        Some(model) => match validate_metadata("model ID", model.as_str()) {
            Ok(_) => {},
            Err(failure) => return Err(failure),
        },
        None => {},
    }
    match &profile.session {
        Some(session) => {
            match validate_metadata("session agent provider", session.agent_provider.as_str()) {
                Ok(_) => {},
                Err(failure) => return Err(failure),
            }
            match validate_metadata("provider session ID", session.provider_session_id.as_str()) {
                Ok(_) => {},
                Err(failure) => return Err(failure),
            }
        },
        None => {},
    }
    Ok(())
}

/// Refuses a profile that could not start a process, or that does not say where
/// it comes from. `absolute` says that the worktree's path is one from the root.
pub fn validate_profile(profile: &LaunchProfileV1, absolute: bool) -> (r: Result<
    (),
    CliFailure,
>)
    ensures
        answers(r, profile_error(*profile, absolute)),
{
    match validate_head(profile) {
        Ok(_) => {},
        Err(failure) => return Err(failure),
    }
    match validate_metadata("checkpoint ID", profile.checkpoint.checkpoint_id.as_str()) {
        Ok(_) => {},
        Err(failure) => return Err(failure),
    }
    if profile.checkpoint.generation == 0 {
        return Err(CliFailure::new(1, "checkpoint generation must be positive"));
    }
    match validate_sha256("checkpoint digest", profile.checkpoint.digest.as_str()) {
        Ok(_) => {},
        Err(failure) => return Err(failure),
    }
    match validate_repository(profile.worktree.repository.as_str()) {
        Ok(_) => {},
        Err(failure) => return Err(failure),
    }
    let path = profile.worktree.path.as_str();
    if !absolute || byte_len(path) > MAX_PATH_BYTES || contains_nul(path) {
        return Err(
            CliFailure::new(
                1,
                "worktree path must be a bounded absolute path without NUL bytes",
            ),
        );
    }
    if !is_full_sha(profile.worktree.head_sha.as_str()) {
        return Err(CliFailure::new(1, "worktree head must be a full 40-character SHA-1"));
    }
    match validate_metadata("worktree lineage ID", profile.worktree.lineage_id.as_str()) {
        Ok(_) => {},
        Err(failure) => return Err(failure),
    }
    match &profile.continuation_bootstrap {
        Some(bootstrap) => validate_continuation_bootstrap(profile, bootstrap),
        None => Ok(()),
    }
}

/// Refuses a profile that could not start a process, or that does not say where it
/// comes from, on the machine that asks: that tells whether the worktree's path is one
/// from the root.
pub fn validate_launch_profile(profile: &LaunchProfileV1) -> (r: Result<(), CliFailure>)
    ensures
        exists|absolute: bool|
            (absolute ==> has_separator(profile.worktree.path@)) && answers(
                r,
                #[trigger] profile_error(*profile, absolute),
            ),
{
    let absolute = profile.worktree_is_absolute();
    let r = validate_profile(profile, absolute);
    proof {
        assert(answers(r, profile_error(*profile, absolute)));
    }
    r
}

/// Whether a profile's file can be read: a regular file that is not too large.
pub fn load_launch_profile(is_file: bool, length: u64) -> (r: Result<(), CliFailure>)
    ensures
        answers(
            r,
            if is_file && length <= MAX_PROFILE_BYTES {
                None
            } else {
                Some("launch profile must be a regular JSON file no larger than 64 KiB"@)
            },
        ),
        r is Ok <==> is_file && length <= 64 * 1024,
{
    if !is_file || length > MAX_PROFILE_BYTES {
        Err(
            CliFailure::new(
                1,
                "launch profile must be a regular JSON file no larger than 64 KiB",
            ),
        )
    } else {
        Ok(())
    }
}

/// Whether a character may stand in a provider's option.
pub open spec fn option_char(c: char) -> bool {
    ('a' <= c && c <= 'z') || ('0' <= c && c <= '9') || c == '.' || c == '_' || c == '-' || c == ':'
}

/// Whether a text can be a provider's option.
pub open spec fn provider_option(value: Seq<char>) -> bool {
    value.len() > 0 && byte_length(value) <= 128 && forall|i: int|
        0 <= i < value.len() ==> option_char(#[trigger] value[i])
}

/// What is wrong with a provider's option.
pub open spec fn option_error(label: Seq<char>, value: Seq<char>) -> Option<Seq<char>> {
    if provider_option(value) {
        None
    } else {
        Some(label + " must be a bounded canonical provider token"@)
    }
}

/// Refuses what cannot be a provider's option.
pub fn validate_provider_option(label: &str, value: &str) -> (r: Result<(), CliFailure>)
    ensures
        answers(r, option_error(label@, value@)),
{
    let chars = to_chars(value);
    let mut good = !value.is_empty() && byte_len(value) <= 128;
    let mut i: usize = 0;
    while i < chars.len()
        invariant
            i <= chars.len(),
            chars@ == value@,
            good == (value@.len() > 0 && byte_length(value@) <= 128 && forall|k: int|
                0 <= k < i ==> option_char(#[trigger] value@[k])),
        decreases chars.len() - i,
    {
        let c = chars[i];
        if !(('a' <= c && c <= 'z') || ('0' <= c && c <= '9') || c == '.' || c == '_' || c == '-' || c
            == ':') {
            good = false;
        }
        i = i + 1;
    }
    if good {
        Ok(())
    } else {
        Err(
            CliFailure::new(1, concat(label, " must be a bounded canonical provider token").as_str()),
        )
    }
}

/// The accounts that a route environment selects, in the order of the names.
pub open spec fn selected_accounts(keys: Seq<Seq<char>>, values: Seq<String>) -> Seq<Seq<char>>
    decreases keys.len(),
{
    if keys.len() == 0 {
        Seq::empty()
    } else {
        let rest = selected_accounts(keys.drop_last(), values);
        if has_suffix(keys.last(), "_ACCOUNT_ID"@) {
            rest.push(values[keys.len() - 1]@)
        } else {
            rest
        }
    }
}

/// Whether a route environment selects exactly the profile's account, by the
/// variable that its provider reads.
pub open spec fn binds_account(
    environment: TextMap<String>,
    account: Option<Seq<char>>,
    key: Seq<char>,
) -> bool {
    let accounts = selected_accounts(environment.keys(), environment.values());
    match account {
        Some(name) => accounts == seq![name] && environment@.dom().contains(key)
            && environment@[key]@ == name,
        None => accounts.len() == 0,
    }
}

/// Refuses a route environment that does not select exactly the profile's
/// account; `account_key` is the variable that its provider reads.
pub fn validate_route_account_selection(profile: &LaunchProfileV1, account_key: &str) -> (r: Result<
    (),
    CliFailure,
>)
    ensures
        answers(
            r,
            if binds_account(
                profile.route_environment,
                opt_view(profile.provider.account),
                account_key@,
            ) {
                None
            } else {
                Some("native route environment does not exactly bind the selected account"@)
            },
        ),
{
    let environment = &profile.route_environment;
    let n: usize = environment.len();
    let mut accounts: Vec<String> = Vec::new();
    let mut i: usize = 0;
    proof {
        assert(environment.keys().take(0) =~= Seq::<Seq<char>>::empty());
        assert(views(accounts@) =~= Seq::<Seq<char>>::empty());
    }
    while i < n
        invariant
            i <= n,
            n == environment.keys().len(),
            n == environment.values().len(),
            views(accounts@) == selected_accounts(
                environment.keys().take(i as int),
                environment.values(),
            ),
        decreases n - i,
    {
        let ghost before = views(accounts@);
        proof {
            assert(environment.keys().take(i + 1).drop_last() =~= environment.keys().take(i as int));
        }
        if ends_with(environment.key_at(i).as_str(), "_ACCOUNT_ID") {
            accounts.push(environment.value_at(i).clone());
            proof {
                assert(views(accounts@) =~= before.push(environment.values()[i as int]@));
            }
        }
        i = i + 1;
    }
    proof {
        assert(environment.keys().take(i as int) =~= environment.keys());
        assert(views(accounts@).len() == accounts@.len());
    }
    let bound = match &profile.provider.account {
        Some(account) => {
            let sole = accounts.len() == 1 && str_eq(accounts[0].as_str(), account.as_str());
            proof {
                if accounts@.len() == 1 {
                    assert(views(accounts@)[0] == accounts@[0]@);
                    assert(views(accounts@) =~= seq![accounts@[0]@]);
                }
                if views(accounts@) == seq![account@] {
                    assert(views(accounts@)[0] == account@);
                }
            }
            sole && match environment.get(account_key) {
                Some(value) => str_eq(value.as_str(), account.as_str()),
                None => false,
            }
        },
        None => accounts.len() == 0,
    };
    if bound {
        Ok(())
    } else {
        Err(
            CliFailure::new(
                1,
                "native route environment does not exactly bind the selected account",
            ),
        )
    }
}

/// How often a text occurs among arguments, from a position on.
pub open spec fn occurrences(argv: Seq<String>, from: int, n: int, needle: Seq<char>) -> nat
    decreases n - from,
{
    if n <= from {
        0
    } else {
        occurrences(argv, from, n - 1, needle) + if argv[n - 1]@ == needle {
            1nat
        } else {
            0
        }
    }
}

fn count_argument(argv: &Vec<String>, needle: &str) -> (r: usize)
    requires
        argv@.len() >= 2,
    ensures
        r == occurrences(argv@, 2, argv@.len() as int, needle@),
{
    let mut count: usize = 0;
    let mut i: usize = 2;
    while i < argv.len()
        invariant
            2 <= i <= argv.len(),
            count == occurrences(argv@, 2, i as int, needle@),
            count <= i - 2,
        decreases argv.len() - i,
    {
        if str_eq(argv[i].as_str(), needle) {
            count = count + 1;
        }
        i = i + 1;
    }
    count
}

/// Whether an argument names an effort, on its own or as a quoted value.
pub open spec fn names_effort(argument: Seq<char>, effort: Seq<char>) -> bool {
    argument == effort || has_infix(argument, "=\""@ + effort + "\""@)
}

/// Whether the arguments say exactly what a profile says of its provider.
pub open spec fn matches_metadata(profile: LaunchProfileV1, argv: Seq<String>, resume: bool) -> bool {
    let n = argv.len() as int;
    &&& opt_view(profile.provider.model) matches Some(model) ==> occurrences(argv, 2, n, model) == 1
    &&& opt_view(profile.provider.reasoning_effort) matches Some(effort) ==> exists|i: int|
        2 <= i < n && names_effort(#[trigger] argv[i]@, effort)
    &&& match profile.session {
        Some(session) => occurrences(argv, 2, n, session.provider_session_id@) == if resume {
            1nat
        } else {
            0
        },
        None => !resume,
    }
}

/// What is wrong with the arguments of a native start; `executable` is the file
/// name of the first.
pub open spec fn native_argv_error(
    profile: LaunchProfileV1,
    argv: Seq<String>,
    executable: Seq<char>,
    resume: bool,
) -> Option<Seq<char>> {
    if executable != "subrouter"@ || argv.len() < 2 || argv[1]@ != profile.provider.provider@ {
        Some("native fresh-agent argv requires an exact Subrouter provider wrapper"@)
    } else if exists|i: int| 2 <= i < argv.len() && has_space(#[trigger] argv[i]@) {
        Some("native fresh-agent argv contains a prompt-bearing argument"@)
    } else if !matches_metadata(profile, argv, resume) {
        Some("native fresh-agent argv does not exactly match validated provider metadata"@)
    } else {
        None
    }
}

/// Refuses arguments of a native start that are not those of the known wrapper,
/// that carry a prompt, or that do not say what the profile says.
pub fn validate_native_argv(
    profile: &LaunchProfileV1,
    argv: &Vec<String>,
    executable: &str,
    resume: bool,
) -> (r: Result<(), CliFailure>)
    ensures
        answers(r, native_argv_error(*profile, argv@, executable@, resume)),
{
    if !str_eq(executable, "subrouter") || argv.len() < 2 || !str_eq(
        argv[1].as_str(),
        profile.provider.provider.as_str(),
    ) {
        return Err(
            CliFailure::new(
                1,
                "native fresh-agent argv requires an exact Subrouter provider wrapper",
            ),
        );
    }
    let mut i: usize = 2;
    while i < argv.len()
        invariant
            2 <= i <= argv.len(),
            executable@ == "subrouter"@,
            argv@[1]@ == profile.provider.provider@,
            forall|k: int| 2 <= k < i ==> !has_space(#[trigger] argv@[k]@),
        decreases argv.len() - i,
    {
        if contains_space(argv[i].as_str()) {
            return Err(
                CliFailure::new(1, "native fresh-agent argv contains a prompt-bearing argument"),
            );
        }
        i = i + 1;
    }
    let model_told = match &profile.provider.model {
        Some(model) => count_argument(argv, model.as_str()) == 1,
        None => true,
    };
    let effort_told = match &profile.provider.reasoning_effort {
        Some(effort) => {
            let quoted = concat3("=\"", effort.as_str(), "\"");
            let mut told = false;
            let mut j: usize = 2;
            while j < argv.len()
                invariant
                    2 <= j <= argv.len(),
                    quoted@ == "=\""@ + effort@ + "\""@,
                    told == exists|k: int| 2 <= k < j && names_effort(#[trigger] argv@[k]@, effort@),
                decreases argv.len() - j,
            {
                if str_eq(argv[j].as_str(), effort.as_str()) || contains(
                    argv[j].as_str(),
                    quoted.as_str(),
                ) {
                    proof {
                        assert(names_effort(argv@[j as int]@, effort@));
                    }
                    told = true;
                }
                j = j + 1;
            }
            told
        },
        None => true,
    };
    let session_told = match &profile.session {
        Some(session) => count_argument(argv, session.provider_session_id.as_str()) == if resume {
            1
        } else {
            0
        },
        None => !resume,
    };
    if model_told && effort_told && session_told {
        Ok(())
    } else {
        Err(
            CliFailure::new(
                1,
                "native fresh-agent argv does not exactly match validated provider metadata",
            ),
        )
    }
}

/// What is wrong with a profile that a fresh agent is natively started by.
pub open spec fn native_error(
    profile: LaunchProfileV1,
    account_key: Seq<char>,
    launch_executable: Seq<char>,
    resume_executable: Seq<char>,
) -> Option<Seq<char>> {
    first_error(
        match opt_view(profile.provider.model) {
            Some(model) => option_error("model ID"@, model),
            None => None,
        },
        first_error(
            if binds_account(
                profile.route_environment,
                opt_view(profile.provider.account),
                account_key,
            ) {
                None
            } else {
                Some("native route environment does not exactly bind the selected account"@)
            },
            first_error(
                native_argv_error(profile, profile.launch_argv@, launch_executable, false),
                native_argv_error(profile, profile.resume_argv@, resume_executable, true),
            ),
        ),
    )
}

/// What a fresh agent must be told before it can take over, as its owner checks
/// it.
#[derive(Debug)]
pub struct ResumeExpectation<'a> {
    pub bootstrap: &'a ContinuationBootstrapV1,
}

/// A route by which a session can be resumed.
#[derive(Debug)]
pub struct ProtectedProviderRoute {
    pub argv: Vec<String>,
    pub environment: TextMap<String>,
    pub account_id: Option<String>,
    pub native_session_id: String,
    pub profile_digest: String,
}

impl LaunchProfileV1 {
    /// The worktree's path.
    pub fn worktree_path(&self) -> (r: &str)
        ensures
            r@ == self.worktree.path@,
    {
        self.worktree.path.as_str()
    }

    /// Whether the worktree's path is one from the root, on the machine that asks.
    pub fn worktree_is_absolute(&self) -> (r: bool)
        ensures
            r ==> has_separator(self.worktree.path@),
    {
        is_absolute_path(self.worktree.path.as_str())
    }

    /// Refuses a profile by which no fresh agent can be natively started. The
    /// variable that selects the account is given, and the file names of the two
    /// first arguments are taken as the machine that asks has them.
    pub fn validate_native_fresh_agent_grammar(&self, account_key: &str) -> (r: Result<
        (),
        CliFailure,
    >)
        ensures
            exists|launch: Seq<char>, resume: Seq<char>|
                {
                    &&& #[trigger] names_executable(self.launch_argv@, launch)
                    &&& #[trigger] names_executable(self.resume_argv@, resume)
                    &&& answers(r, native_error(*self, account_key@, launch, resume))
                },
    {
        let launch = executable_name(&self.launch_argv);
        let resume = executable_name(&self.resume_argv);
        proof {
            assert(names_executable(self.launch_argv@, launch@));
            assert(names_executable(self.resume_argv@, resume@));
        }
        self.validate_native_grammar(account_key, launch.as_str(), resume.as_str())
    }

    /// Refuses a profile by which no fresh agent can be natively started. The
    /// variable that selects the account and the file names of the two first
    /// arguments are given.
    pub fn validate_native_grammar(
        &self,
        account_key: &str,
        launch_executable: &str,
        resume_executable: &str,
    ) -> (r: Result<(), CliFailure>)
        ensures
            answers(
                r,
                native_error(*self, account_key@, launch_executable@, resume_executable@),
            ),
    {
        match &self.provider.model {
            Some(model) => match validate_provider_option("model ID", model.as_str()) {
                Ok(_) => {},
                Err(failure) => return Err(failure),
            },
            None => {},
        }
        match validate_route_account_selection(self, account_key) {
            Ok(_) => {},
            Err(failure) => return Err(failure),
        }
        match validate_native_argv(self, &self.launch_argv, launch_executable, false) {
            Ok(_) => {},
            Err(failure) => return Err(failure),
        }
        validate_native_argv(self, &self.resume_argv, resume_executable, true)
    }

    /// The route by which the session can be resumed.
    pub fn protected_resume_route(&self, profile_digest: String) -> (r: ProtectedProviderRoute)
        ensures
            views(r.argv@) == views(self.resume_argv@),
            r.environment.keys() == self.route_environment.keys(),
            views(r.environment.values()) == views(self.route_environment.values()),
            opt_view(r.account_id) == opt_view(self.provider.account),
            r.native_session_id@ == match self.session {
                Some(session) => session.provider_session_id@,
                None => Seq::<char>::empty(),
            },
            r.profile_digest == profile_digest,
    {
        let native_session_id = match &self.session {
            Some(session) => session.provider_session_id.clone(),
            None => {
                let none = String::new();
                proof {
                    assert(none@ =~= Seq::<char>::empty());
                }
                none
            },
        };
        ProtectedProviderRoute {
            argv: crate::text::copy_texts(&self.resume_argv),
            environment: self.route_environment.dup(),
            account_id: crate::text::copy_opt(self.provider.account.as_ref()),
            native_session_id,
            profile_digest,
        }
    }

    /// Whether a fresh agent may take over.
    pub open spec fn allows_fresh(self) -> bool {
        self.recovery_policy != RecoveryPolicyV1::ExactSessionOnly && (
        self.continuation_bootstrap matches Some(bootstrap) && bootstrap_error(bootstrap, self)
            is None)
    }

    /// Whether a fresh agent may take over: the policy allows it, and the profile
    /// says what the agent must be told.
    pub fn permits_fresh_agent(&self) -> (r: bool)
        ensures
            r == self.allows_fresh(),
    {
        let allowed = match self.recovery_policy {
            RecoveryPolicyV1::ExactSessionOnly => false,
            _ => true,
        };
        allowed && self.resume_expectation().is_some()
    }

    /// What a fresh agent must be told; `None` where the profile does not say it
    /// or says it wrongly.
    pub fn resume_expectation(&self) -> (r: Option<ResumeExpectation<'_>>)
        ensures
            match r {
                Some(expected) => self.continuation_bootstrap == Some(*expected.bootstrap)
                    && bootstrap_error(*expected.bootstrap, *self) is None,
                None => self.continuation_bootstrap matches Some(bootstrap) ==> bootstrap_error(
                    bootstrap,
                    *self,
                ) is Some,
            },
    {
        match &self.continuation_bootstrap {
            Some(bootstrap) => match validate_continuation_bootstrap(self, bootstrap) {
                Ok(_) => Some(ResumeExpectation { bootstrap }),
                Err(_) => None,
            },
            None => None,
        }
    }
}

/// What follows the last slash of a text.
pub open spec fn last_piece(path: Seq<char>) -> Seq<char>
    decreases path.len(),
{
    if path.len() == 0 || path.last() == '/' {
        Seq::empty()
    } else {
        last_piece(path.drop_last()).push(path.last())
    }
}

/// Whether a path means the same on every platform: it holds no character that
/// separates or marks anything on some platforms only, and does not begin with two
/// slashes.
pub open spec fn plain_path(path: Seq<char>) -> bool {
    &&& !path.contains('\\')
    &&& !path.contains(':')
    &&& !(path.len() >= 2 && path[0] == '/' && path[1] == '/')
}

/// Whether a piece of a path can name a file.
pub open spec fn names_file(piece: Seq<char>) -> bool {
    piece.len() > 0 && piece != "."@ && piece != ".."@
}

/// Whether a path holds a slash or a backslash.
pub open spec fn has_separator(path: Seq<char>) -> bool {
    path.contains('/') || path.contains('\\')
}

/// `std::path::Path::is_absolute`: whether a path does not depend on the current
/// directory. Such a path begins at a root, which is written with a slash or a
/// backslash. Which paths that hold one do is the platform's, and is not stated.
#[verifier::external_body]
fn is_absolute_path(path: &str) -> (r: bool)
    ensures
        r ==> has_separator(path@),
{
    std::path::Path::new(path).is_absolute()
}

/// `std::path::Path::file_name`: the last component of a path, as text. It is a piece
/// of the path and not empty, and in a path that means the same everywhere it is what
/// follows the last slash, where that can name a file. How platforms divide other
/// paths is not stated.
#[verifier::external_body]
fn path_file_name(path: &str) -> (r: Option<String>)
    ensures
        r is Some ==> r->Some_0@.len() > 0 && has_infix(path@, r->Some_0@),
        plain_path(path@) && names_file(last_piece(path@)) ==> r is Some && r->Some_0@
            == last_piece(path@),
{
    let name = std::path::Path::new(path).file_name();
    name.and_then(|name| name.to_str()).map(|name| name.to_owned())
}

/// Whether a text can be the file name of the first of some arguments, empty where
/// there is none.
pub open spec fn names_executable(argv: Seq<String>, name: Seq<char>) -> bool {
    if argv.len() == 0 {
        name.len() == 0
    } else {
        &&& name.len() > 0 ==> has_infix(argv[0]@, name)
        &&& plain_path(argv[0]@) && names_file(last_piece(argv[0]@)) ==> name == last_piece(
            argv[0]@,
        )
    }
}

/// The file name of the first of some arguments, empty where there is none.
fn executable_name(argv: &Vec<String>) -> (r: String)
    ensures
        names_executable(argv@, r@),
{
    proof {
        reveal_strlit("");
    }
    if argv.len() == 0 {
        return String::new();
    }
    match path_file_name(argv[0].as_str()) {
        Some(name) => name,
        None => String::new(),
    }
}

/// What precedes the stored form of a profile.
pub open spec fn profile_prefix() -> Seq<u8> {
    encode_utf8("shipyard-launch-profile-v1"@).push(0)
}

fn profile_prefix_bytes() -> (r: Vec<u8>)
    ensures
        r@ == profile_prefix(),
{
    let mut out = to_bytes("shipyard-launch-profile-v1");
    out.push(0);
    out
}

/// The stored form of a profile: the prefix, then its canonical bytes.
pub fn launch_profile_protected_bytes(
    profile: &LaunchProfileV1,
    absolute: bool,
    canonical: &Vec<u8>,
) -> (r: Result<Vec<u8>, CliFailure>)
    ensures
        match profile_error(*profile, absolute) {
            Some(text) => fails(r, 1, text),
            None => r matches Ok(bytes) && Some(bytes@) == stored_form(
                *profile,
                absolute,
                canonical@,
            ),
        },
{
    match validate_profile(profile, absolute) {
        Ok(_) => {},
        Err(failure) => return Err(failure),
    }
    let mut out = profile_prefix_bytes();
    let ghost prefix = out@;
    let mut i: usize = 0;
    while i < canonical.len()
        invariant
            i <= canonical.len(),
            out@ =~= prefix + canonical@.take(i as int),
        decreases canonical.len() - i,
    {
        out.push(canonical[i]);
        i = i + 1;
    }
    proof {
        assert(canonical@.take(i as int) =~= canonical@);
    }
    Ok(out)
}

/// The digest of a profile with the given canonical bytes.
pub open spec fn profile_digest(canonical: Seq<u8>) -> Seq<char> {
    sha256_hex(profile_prefix() + canonical)
}

/// The digest of a profile.
pub fn launch_profile_digest(profile: &LaunchProfileV1, absolute: bool, canonical: &Vec<u8>) -> (r:
    Result<String, CliFailure>)
    ensures
        match profile_error(*profile, absolute) {
            Some(text) => fails(r, 1, text),
            None => r matches Ok(text) && text@ == profile_digest(canonical@),
        },
{
    match launch_profile_protected_bytes(profile, absolute, canonical) {
        Ok(bytes) => Ok(hex_digest(&bytes)),
        Err(failure) => Err(failure),
    }
}

/// Whether bytes begin with other bytes.
pub open spec fn begins_with(bytes: Seq<u8>, prefix: Seq<u8>) -> bool {
    bytes.len() >= prefix.len() && bytes.take(prefix.len() as int) == prefix
}

fn bytes_begin(bytes: &Vec<u8>, from: usize, prefix: &Vec<u8>) -> (r: bool)
    requires
        from <= bytes@.len(),
    ensures
        r == begins_with(bytes@.skip(from as int), prefix@),
{
    if bytes.len() - from < prefix.len() {
        return false;
    }
    let mut i: usize = 0;
    while i < prefix.len()
        invariant
            i <= prefix.len(),
            from + prefix.len() <= bytes.len(),
            forall|k: int| 0 <= k < i ==> bytes@[from + k] == #[trigger] prefix@[k],
        decreases prefix.len() - i,
    {
        if bytes[from + i] != prefix[i] {
            proof {
                let head = bytes@.skip(from as int).take(prefix@.len() as int);
                assert(head[i as int] == bytes@[from + i]);
            }
            return false;
        }
        i = i + 1;
    }
    proof {
        assert(bytes@.skip(from as int).take(prefix@.len() as int) =~= prefix@);
    }
    true
}

/// What is wrong with the frame of a stored profile.
pub open spec fn frame_error(bytes: Seq<u8>) -> Option<Seq<char>> {
    if !begins_with(bytes, profile_prefix()) {
        Some("protected launch profile has the wrong domain"@)
    } else if begins_with(bytes.skip(profile_prefix().len() as int), profile_prefix()) {
        Some("protected launch profile has repeated domain separation"@)
    } else {
        None
    }
}

/// The canonical bytes of a stored profile: what follows the prefix, which stands
/// there once.
pub fn open_protected_launch_profile(bytes: &Vec<u8>) -> (r: Result<Vec<u8>, String>)
    ensures
        match frame_error(bytes@) {
            Some(text) => r matches Err(e) && e@ == text,
            None => r matches Ok(canonical) && canonical@ == bytes@.skip(
                profile_prefix().len() as int,
            ),
        },
{
    let prefix = profile_prefix_bytes();
    proof {
        assert(bytes@.skip(0) =~= bytes@);
    }
    if !bytes_begin(bytes, 0, &prefix) {
        return Err("protected launch profile has the wrong domain".to_owned());
    }
    if bytes_begin(bytes, prefix.len(), &prefix) {
        return Err("protected launch profile has repeated domain separation".to_owned());
    }
    let n: usize = prefix.len();
    let mut out: Vec<u8> = Vec::new();
    let mut i: usize = n;
    while i < bytes.len()
        invariant
            n <= i <= bytes.len(),
            out@ =~= bytes@.subrange(n as int, i as int),
        decreases bytes.len() - i,
    {
        out.push(bytes[i]);
        i = i + 1;
    }
    proof {
        assert(out@ =~= bytes@.skip(n as int));
    }
    Ok(out)
}

/// Whether two byte lists are the same.
fn same_byte_lists(a: &Vec<u8>, b: &Vec<u8>) -> (r: bool)
    ensures
        r == (a@ == b@),
{
    if a.len() != b.len() {
        return false;
    }
    let mut i: usize = 0;
    while i < a.len()
        invariant
            i <= a.len(),
            a.len() == b.len(),
            forall|k: int| 0 <= k < i ==> a@[k] == b@[k],
        decreases a.len() - i,
    {
        if a[i] != b[i] {
            return false;
        }
        i = i + 1;
    }
    proof {
        assert(a@ =~= b@);
    }
    true
}

/// The stored form of a profile with the given canonical bytes, where it is valid.
pub open spec fn stored_form(
    profile: LaunchProfileV1,
    absolute: bool,
    canonical: Seq<u8>,
) -> Option<Seq<u8>> {
    if profile_error(profile, absolute) is None {
        Some(profile_prefix() + canonical)
    } else {
        None
    }
}

/// What is wrong with a stored profile.
pub open spec fn decode_error(
    bytes: Seq<u8>,
    profile: LaunchProfileV1,
    absolute: bool,
    canonical: Seq<u8>,
) -> Option<Seq<char>> {
    match frame_error(bytes) {
        Some(text) => Some(text),
        None => match profile_error(profile, absolute) {
            Some(text) => Some("protected launch profile is invalid: "@ + text),
            None => if profile_prefix() + canonical == bytes {
                None
            } else {
                Some("protected launch profile bytes are not canonical"@)
            },
        },
    }
}

/// Refuses a stored profile that is not valid, or whose bytes are not its
/// canonical ones: `profile` was read from what follows the prefix, and
/// `canonical` are its canonical bytes.
pub fn decode_protected_launch_profile(
    bytes: &Vec<u8>,
    profile: &LaunchProfileV1,
    absolute: bool,
    canonical: &Vec<u8>,
) -> (r: Result<(), String>)
    ensures
        match decode_error(bytes@, *profile, absolute, canonical@) {
            Some(text) => r matches Err(e) && e@ == text,
            None => r is Ok,
        },
{
    match open_protected_launch_profile(bytes) {
        Ok(_) => {},
        Err(error) => return Err(error),
    }
    match launch_profile_protected_bytes(profile, absolute, canonical) {
        Ok(recomputed) => {
            if same_byte_lists(&recomputed, bytes) {
                Ok(())
            } else {
                Err("protected launch profile bytes are not canonical".to_owned())
            }
        },
        Err(failure) => Err(
            concat("protected launch profile is invalid: ", failure.message()),
        ),
    }
}

/// Bytes are read as a profile exactly where they are what is stored of it, for any
/// bytes, any profile and any canonical bytes that do not begin like a stored profile
/// themselves; those are never read. What follows the prefix of bytes that are read
/// are the canonical ones.
pub proof fn stored_profile_reads_back(
    bytes: Seq<u8>,
    profile: LaunchProfileV1,
    absolute: bool,
    canonical: Seq<u8>,
)
    ensures
        decode_error(bytes, profile, absolute, canonical) is None <==> stored_form(
            profile,
            absolute,
            canonical,
        ) == Some(bytes) && !begins_with(canonical, profile_prefix()),
        decode_error(bytes, profile, absolute, canonical) is None ==> bytes.skip(
            profile_prefix().len() as int,
        ) == canonical,
{
    let stored = profile_prefix() + canonical;
    assert(stored.take(profile_prefix().len() as int) =~= profile_prefix());
    assert(stored.skip(profile_prefix().len() as int) =~= canonical);
}

/// Bytes are read as a profile whose canonical bytes are a JSON object exactly where
/// they are what is stored of it: nothing without the prefix, with the prefix twice,
/// with other bytes for the same object, or of a profile that is not valid.
pub proof fn stored_object_reads_back(
    bytes: Seq<u8>,
    profile: LaunchProfileV1,
    absolute: bool,
    canonical: Seq<u8>,
)
    requires
        canonical.len() > 0,
        canonical[0] == 0x7b,
    ensures
        decode_error(bytes, profile, absolute, canonical) is None <==> stored_form(
            profile,
            absolute,
            canonical,
        ) == Some(bytes),
{
    stored_profile_reads_back(bytes, profile, absolute, canonical);
    prefix_begins_no_object();
    if begins_with(canonical, profile_prefix()) {
        assert(canonical.take(profile_prefix().len() as int)[0] == canonical[0]);
    }
}

proof fn prefix_begins_no_object()
    ensures
        profile_prefix().len() > 0,
        profile_prefix()[0] == 0x73,
{
    let name = "shipyard-launch-profile-v1"@;
    reveal_strlit("shipyard-launch-profile-v1");
    assert(0x73u32 & 0x7F == 0x73) by (bit_vector);
    assert(name[0] as u32 == 0x73);
    assert(encode_utf8(name) == vstd::utf8::encode_scalar(0x73) + encode_utf8(name.drop_first()));
    assert(encode_utf8(name)[0] == 0x73);
}

/// The form of what binds a profile to its receipt.
pub open spec fn envelope(
    digest: Seq<char>,
    generation: u64,
    revision: u64,
    route_id: Option<Seq<char>>,
) -> Seq<u8> {
    encode_utf8("shipyard-launch-profile-envelope-v1"@).push(0) + framed(digest) + framed(
        match route_id {
            Some(id) => id,
            None => Seq::empty(),
        },
    ) + eight_bytes(generation as nat) + eight_bytes(revision as nat)
}

/// What binds a profile to its receipt: its digest, its generation and revision,
/// and the route.
pub open spec fn integrity(
    digest: Seq<char>,
    generation: u64,
    revision: u64,
    route_id: Option<Seq<char>>,
) -> Seq<char> {
    sha256_hex(envelope(digest, generation, revision, route_id))
}

/// What binds a profile to its receipt.
pub fn launch_profile_integrity_hash(
    digest: &str,
    generation: u64,
    revision: u64,
    route_id: Option<&str>,
) -> (r: String)
    ensures
        r@ == integrity(
            digest@,
            generation,
            revision,
            match route_id {
                Some(id) => Some(id@),
                None => None,
            },
        ),
{
    let mut bytes = to_bytes("shipyard-launch-profile-envelope-v1");
    bytes.push(0);
    let ghost prefix = bytes@;
    let route = match route_id {
        Some(id) => id,
        None => "",
    };
    proof {
        reveal_strlit("");
        if route_id is None {
            assert(route@ =~= Seq::<char>::empty());
        }
    }
    crate::fingerprint::push_framed(&mut bytes, digest);
    crate::fingerprint::push_framed(&mut bytes, route);
    crate::fingerprint::push_number(&mut bytes, generation);
    crate::fingerprint::push_number(&mut bytes, revision);
    hex_digest(&bytes)
}

/// The model and the effort that an agent is started with.
#[derive(Debug)]
pub struct ProviderLaunchOptions {
    pub model_id: Option<String>,
    pub reasoning_effort: Option<String>,
}

impl LaunchProfileV1 {
    /// The model and the effort that an agent is started with.
    pub fn provider_launch_options(&self) -> (r: ProviderLaunchOptions)
        ensures
            opt_view(r.model_id) == opt_view(self.provider.model),
            opt_view(r.reasoning_effort) == opt_view(self.provider.reasoning_effort),
    {
        ProviderLaunchOptions {
            model_id: crate::text::copy_opt(self.provider.model.as_ref()),
            reasoning_effort: crate::text::copy_opt(self.provider.reasoning_effort.as_ref()),
        }
    }

    /// The digest of the profile, as a consumer checks it.
    pub fn profile_digest(&self, absolute: bool, canonical: &Vec<u8>) -> (r: Result<String, String>)
        ensures
            match profile_error(*self, absolute) {
                Some(text) => r matches Err(e) && e@ == "launch profile is invalid: "@ + text,
                None => r matches Ok(digest) && digest@ == profile_digest(canonical@),
            },
    {
        match launch_profile_digest(self, absolute, canonical) {
            Ok(digest) => Ok(digest),
            Err(failure) => Err(concat("launch profile is invalid: ", failure.message())),
        }
    }

    /// The stored form of the profile, as a consumer gets it.
    pub fn protected_profile_bytes(&self, absolute: bool, canonical: &Vec<u8>) -> (r: Result<
        Vec<u8>,
        String,
    >)
        ensures
            match profile_error(*self, absolute) {
                Some(text) => r matches Err(e) && e@ == "launch profile is invalid: "@ + text,
                None => r matches Ok(bytes) && bytes@ == profile_prefix() + canonical@,
            },
    {
        match launch_profile_protected_bytes(self, absolute, canonical) {
            Ok(bytes) => Ok(bytes),
            Err(failure) => Err(concat("launch profile is invalid: ", failure.message())),
        }
    }
}

/// A profile is accepted only where all of it is: its schema, both of its commands, its
/// environment and provider, a session where it has one, the checkpoint, the worktree and
/// a bootstrap where it has one; and then it always is.
pub proof fn a_profile_is_accepted_as_a_whole(profile: LaunchProfileV1, absolute: bool)
    ensures
        profile_error(profile, absolute) is None <==> {
            &&& profile.schema_version == 1
            &&& argv_error("launch"@, profile.launch_argv@) is None
            &&& argv_error("resume"@, profile.resume_argv@) is None
            &&& environment_error(profile.route_environment) is None
            &&& is_metadata(profile.provider.provider@)
            &&& opt_view(profile.provider.account) matches Some(account) ==> is_metadata(account)
            &&& opt_view(profile.provider.model) matches Some(model) ==> is_metadata(model)
            &&& profile.session matches Some(session) ==> is_metadata(session.agent_provider@)
                && is_metadata(session.provider_session_id@)
            &&& is_metadata(profile.checkpoint.checkpoint_id@)
            &&& profile.checkpoint.generation > 0
            &&& profile.checkpoint.digest@.len() == 64 && all_hex(profile.checkpoint.digest@)
            &&& repository_error(profile.worktree.repository@) is None
            &&& absolute && byte_length(profile.worktree.path@) <= 4096 && !has_nul(
                profile.worktree.path@,
            )
            &&& full_sha(profile.worktree.head_sha@)
            &&& is_metadata(profile.worktree.lineage_id@)
            &&& profile.continuation_bootstrap matches Some(bootstrap) ==> bootstrap_error(
                bootstrap,
                profile,
            ) is None
        },
{
}

/// A command is accepted exactly where it has an executable, at most sixty-four items,
/// none of them too long or with a zero byte, and is not too long as a whole.
pub proof fn a_bounded_command_is_accepted(label: Seq<char>, argv: Seq<String>)
    ensures
        argv_error(label, argv) is None <==> 1 <= argv.len() <= 64 && argv[0]@.len() > 0 && (
        forall|i: int|
            0 <= i < argv.len() ==> byte_length((#[trigger] argv[i])@) <= 4096 && !has_nul(
                argv[i]@,
            )) && argv_bytes(argv) <= 16 * 1024,
{
    assert forall|i: int| 0 <= i < argv.len() implies (bad_argument(#[trigger] argv[i]@)
        <==> !(byte_length(argv[i]@) <= 4096 && !has_nul(argv[i]@))) by {}
    if forall|i: int|
        0 <= i < argv.len() ==> byte_length((#[trigger] argv[i])@) <= 4096 && !has_nul(argv[i]@) {
        assert forall|i: int| 0 <= i < argv.len() implies !bad_argument(#[trigger] argv[i]@) by {}
    } else {
        let i = choose|i: int|
            0 <= i < argv.len() && !(byte_length((#[trigger] argv[i])@) <= 4096 && !has_nul(
                argv[i]@,
            ));
        assert(bad_argument(argv[i]@));
    }
}

/// A bootstrap is accepted only where it is bound to the checkpoint, repository and head
/// of its profile and its revisions have begun.
pub proof fn an_accepted_bootstrap_is_bound(
    bootstrap: ContinuationBootstrapV1,
    profile: LaunchProfileV1,
)
    requires
        bootstrap_error(bootstrap, profile) is None,
    ensures
        bootstrap.checkpoint_id@ == profile.checkpoint.checkpoint_id@,
        bootstrap.checkpoint_generation == profile.checkpoint.generation,
        bootstrap.checkpoint_digest@ == profile.checkpoint.digest@,
        bootstrap.repository@ == profile.worktree.repository@,
        bootstrap.head_sha@ == profile.worktree.head_sha@,
        bootstrap.checkpoint_generation > 0 && bootstrap.projection_revision > 0,
        good_handle(bootstrap.workstream_handle@),
        opt_view(bootstrap.context_url) matches Some(url) ==> good_link(url),
        bootstrap.plan_sha256@.len() == 64 && all_lower_hex(bootstrap.plan_sha256@),
        bootstrap.expected_resume_context_digest@.len() == 64 && all_lower_hex(
            bootstrap.expected_resume_context_digest@,
        ),
        bootstrap.success_continuation_digest@.len() == 64 && all_lower_hex(
            bootstrap.success_continuation_digest@,
        ),
        bootstrap.failure_continuation_digest@.len() == 64 && all_lower_hex(
            bootstrap.failure_continuation_digest@,
        ),
{
}

/// A native command is accepted exactly where the wrapper is called for the provider of the
/// profile, no further argument has room for a prompt, and the arguments are those of the
/// metadata.
pub proof fn a_native_command_names_its_provider(
    profile: LaunchProfileV1,
    argv: Seq<String>,
    executable: Seq<char>,
    resume: bool,
)
    ensures
        native_argv_error(profile, argv, executable, resume) is None <==> executable == "subrouter"@
            && argv.len() >= 2 && argv[1]@ == profile.provider.provider@ && (forall|i: int|
            2 <= i < argv.len() ==> !has_space((#[trigger] argv[i])@)) && matches_metadata(
            profile,
            argv,
            resume,
        ),
        matches_metadata(profile, argv, true) ==> (profile.session matches Some(session)
            && occurrences(argv, 2, argv.len() as int, session.provider_session_id@) == 1),
        matches_metadata(profile, argv, false) ==> (profile.session matches Some(session)
            ==> occurrences(argv, 2, argv.len() as int, session.provider_session_id@) == 0),
{
    if exists|i: int| 2 <= i < argv.len() && has_space(#[trigger] argv[i]@) {
        let i = choose|i: int| 2 <= i < argv.len() && has_space(#[trigger] argv[i]@);
        assert(has_space(argv[i]@));
    } else {
        assert forall|i: int| 2 <= i < argv.len() implies !has_space((#[trigger] argv[i])@) by {}
    }
}

/// A fresh agent may take over exactly where the policy allows one and the bootstrap is
/// accepted.
pub proof fn a_fresh_agent_needs_a_bootstrap(profile: LaunchProfileV1)
    ensures
        profile.allows_fresh() ==> profile.continuation_bootstrap is Some && profile.recovery_policy
            != RecoveryPolicyV1::ExactSessionOnly,
        profile.recovery_policy == RecoveryPolicyV1::FreshCheckpointOnly || profile.recovery_policy
            == RecoveryPolicyV1::ExactSessionThenFreshCheckpoint ==> (
        profile.continuation_bootstrap matches Some(bootstrap) ==> (profile.allows_fresh()
            <==> bootstrap_error(bootstrap, profile) is None)),
{
}

/// A variable is accepted only where it is one of the route's own, in capitals, with a
/// bounded value without control characters.
pub proof fn only_route_variables_are_accepted(environment: TextMap<String>, i: int)
    requires
        environment_error(environment) is None,
        0 <= i < environment.keys().len(),
    ensures
        environment.keys().len() <= 16,
        has_prefix(environment.keys()[i], "SUBROUTER_"@),
        environment.values()[i]@.len() > 0,
        !has_control(environment.values()[i]@),
        byte_length(environment.values()[i]@) <= 4096,
        byte_length(environment.keys()[i]) <= 128,
{
    assert(good_variable(environment.keys()[i], environment.values()[i]@));
}

/// The environment binds an account exactly where the one variable that names an account
/// names the selected one; without a selected account no variable may name one.
pub proof fn only_the_selected_account_is_bound(
    environment: TextMap<String>,
    account: Option<Seq<char>>,
    key: Seq<char>,
)
    requires
        binds_account(environment, account, key),
    ensures
        account matches Some(name) ==> environment@.dom().contains(key) && environment@[key]@ == name
            && selected_accounts(environment.keys(), environment.values()).len() == 1,
        account is None ==> selected_accounts(environment.keys(), environment.values()).len() == 0,
{
}

/// A variable that names an account counts as one that is selected.
pub proof fn each_account_variable_counts(keys: Seq<Seq<char>>, values: Seq<String>, i: int)
    requires
        0 <= i < keys.len(),
        has_suffix(keys[i], "_ACCOUNT_ID"@),
    ensures
        selected_accounts(keys, values).contains(values[i]@),
        selected_accounts(keys, values).len() > 0,
    decreases keys.len(),
{
    let before = keys.drop_last();
    let rest = selected_accounts(before, values);
    let all = selected_accounts(keys, values);
    if i < keys.len() - 1 {
        assert(before[i] == keys[i]);
        each_account_variable_counts(before, values, i);
        let k = choose|k: int| 0 <= k < rest.len() && rest[k] == values[i]@;
        assert(all[k] == values[i]@);
    } else {
        assert(all[rest.len() as int] == values[i]@);
    }
}

/// A profile can be launched natively exactly where its model is a plain option, its account
/// is bound, and both of its commands are accepted, the one to resume with its session.
pub proof fn a_native_profile_is_accepted_as_a_whole(
    profile: LaunchProfileV1,
    account_key: Seq<char>,
    launch_executable: Seq<char>,
    resume_executable: Seq<char>,
)
    ensures
        native_error(profile, account_key, launch_executable, resume_executable) is None <==> (
        opt_view(profile.provider.model) matches Some(model) ==> provider_option(model))
            && binds_account(
            profile.route_environment,
            opt_view(profile.provider.account),
            account_key,
        ) && native_argv_error(profile, profile.launch_argv@, launch_executable, false) is None
            && native_argv_error(profile, profile.resume_argv@, resume_executable, true) is None,
{
}

} // verus!
