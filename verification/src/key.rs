//! Tenant contexts, logical keys, paths, and the fully-qualified names under
//! which documents are stored.

use vstd::prelude::*;
use vstd::string::StringExecFns;

verus! {

/// A path into a document: an ordered list of segments, each an object field
/// name or an array index written in decimal. The empty path is the whole
/// document.
#[derive(Debug, PartialEq, Eq, Hash)]
pub struct StatePath {
    pub segments: Vec<String>,
}

/// The segments of a list of strings, as texts.
pub open spec fn texts(strings: Seq<String>) -> Seq<Seq<char>> {
    strings.map_values(|s: String| s@)
}

impl View for StatePath {
    type V = Seq<Seq<char>>;

    open spec fn view(&self) -> Seq<Seq<char>> {
        texts(self.segments@)
    }
}

/// The segments that `greentic_types::StatePath::from_pointer` reads out of a
/// JSON pointer.
pub uninterp spec fn pointer_segments(pointer: Seq<char>) -> Seq<Seq<char>>;

/// Splits a JSON pointer with `greentic_types::StatePath::from_pointer` and
/// hands back the segments it found.
#[verifier::external_body]
fn split_pointer(pointer: &str) -> (segments: Vec<String>)
    ensures
        texts(segments@) == pointer_segments(pointer@),
{
    greentic_types::StatePath::from_pointer(pointer).segments
}

impl StatePath {
    /// The empty path, which addresses the whole document.
    pub fn root() -> (path: StatePath)
        ensures
            path@ == Seq::<Seq<char>>::empty(),
    {
        let path = StatePath { segments: Vec::new() };
        path
    }

    /// Appends a segment to the path.
    pub fn push(&mut self, segment: &str)
        ensures
            final(self)@ == old(self)@.push(segment@),
    {
        self.segments.push(String::from_str(segment));
    }

    /// The path written as the JSON pointer `pointer`.
    pub fn from_pointer(pointer: &str) -> (path: StatePath)
        ensures
            path@ == pointer_segments(pointer@),
    {
        StatePath { segments: split_pointer(pointer) }
    }
}

impl Default for StatePath {
    /// The empty path.
    fn default() -> (path: StatePath)
        ensures
            path@ == Seq::<Seq<char>>::empty(),
    {
        StatePath::root()
    }
}

impl Clone for StatePath {
    fn clone(&self) -> (copy: StatePath)
        ensures
            copy@ == self@,
    {
        let mut segments: Vec<String> = Vec::new();
        let mut i: usize = 0;
        while i < self.segments.len()
            invariant
                0 <= i <= self.segments.len(),
                segments.len() == i,
                forall|k: int| 0 <= k < i ==> (#[trigger] segments[k])@ == self.segments[k]@,
            decreases self.segments.len() - i,
        {
            segments.push(self.segments[i].clone());
            i += 1;
        }
        let copy = StatePath { segments };
        copy
    }
}

/// The isolation scope of a caller: an environment, a tenant, and optionally a
/// team and a user. Contexts that differ in any of them never see each
/// other's entries.
#[derive(Clone, Debug, PartialEq, Eq, Hash)]
pub struct TenantCtx {
    pub env: String,
    pub tenant: String,
    pub team: Option<String>,
    pub user: Option<String>,
}

/// The text of an optional string.
pub open spec fn optional_text(text: Option<String>) -> Option<Seq<char>> {
    match text {
        Some(text) => Some(text@),
        None => None,
    }
}

/// The first of two optional texts that is there.
pub open spec fn preferred_text(first: Option<&str>, second: Option<&str>) -> Option<Seq<char>> {
    match first {
        Some(text) => Some(text@),
        None => match second {
            Some(text) => Some(text@),
            None => None,
        },
    }
}

fn preferred(first: Option<&str>, second: Option<&str>) -> (chosen: Option<String>)
    ensures
        optional_text(chosen) == preferred_text(first, second),
{
    match first {
        Some(text) => Some(String::from_str(text)),
        None => match second {
            Some(text) => Some(String::from_str(text)),
            None => None,
        },
    }
}

impl TenantCtx {
    /// A context for `tenant` in `env`, with no team and no user.
    pub fn new(env: &str, tenant: &str) -> (ctx: TenantCtx)
        ensures
            ctx.env@ == env@,
            ctx.tenant@ == tenant@,
            ctx.team is None,
            ctx.user is None,
    {
        TenantCtx {
            env: String::from_str(env),
            tenant: String::from_str(tenant),
            team: None,
            user: None,
        }
    }

    /// A context from the identifiers that a runtime carries, where the team
    /// and the user may each come as an identifier or under an older name:
    /// the identifier counts where both are given.
    pub fn from_ids(
        env: &str,
        tenant_id: &str,
        team_id: Option<&str>,
        team: Option<&str>,
        user_id: Option<&str>,
        user: Option<&str>,
    ) -> (ctx: TenantCtx)
        ensures
            ctx.env@ == env@,
            ctx.tenant@ == tenant_id@,
            optional_text(ctx.team) == preferred_text(team_id, team),
            optional_text(ctx.user) == preferred_text(user_id, user),
    {
        TenantCtx {
            env: String::from_str(env),
            tenant: String::from_str(tenant_id),
            team: preferred(team_id, team),
            user: preferred(user_id, user),
        }
    }

    /// The same context with `team` as its team.
    pub fn with_team(self, team: Option<String>) -> (ctx: TenantCtx)
        ensures
            ctx == (TenantCtx { team, ..self }),
    {
        TenantCtx { team, ..self }
    }

    /// The same context with `user` as its user.
    pub fn with_user(self, user: Option<String>) -> (ctx: TenantCtx)
        ensures
            ctx == (TenantCtx { user, ..self }),
    {
        TenantCtx { user, ..self }
    }
}

/// The caller-chosen name of a document within a prefix.
#[derive(Clone, Debug, PartialEq, Eq, Hash)]
pub struct StateKey(pub String);

impl View for StateKey {
    type V = Seq<char>;

    open spec fn view(&self) -> Seq<char> {
        self.0@
    }
}

impl StateKey {
    /// The key named `value`.
    pub fn new(value: &str) -> (key: StateKey)
        ensures
            key@ == value@,
    {
        StateKey(String::from_str(value))
    }

    /// The key as a string slice.
    pub fn as_str(&self) -> (text: &str)
        ensures
            text@ == self@,
    {
        self.0.as_str()
    }
}

/// The fully-qualified name under which a document is stored, derived from a
/// tenant context, a prefix and a key. Backends use this text and nothing
/// else as the storage key.
#[derive(Clone, Debug, PartialEq, Eq, Hash)]
pub struct FqnKey(pub String);

impl View for FqnKey {
    type V = Seq<char>;

    open spec fn view(&self) -> Seq<char> {
        self.0@
    }
}

impl FqnKey {
    /// The name as a string slice.
    pub fn as_str(&self) -> (text: &str)
        ensures
            text@ == self@,
    {
        self.0.as_str()
    }
}

/// The scope of a tenant context as text: environment and tenant, then the
/// team and the user where present, joined by colons.
pub open spec fn scope_text(tenant: TenantCtx) -> Seq<char> {
    let base = tenant.env@ + ":"@ + tenant.tenant@;
    let with_team = match tenant.team {
        Some(team) => base + ":"@ + team@,
        None => base,
    };
    match tenant.user {
        Some(user) => with_team + ":"@ + user@,
        None => with_team,
    }
}

/// The text with which the name of every entry under `(tenant, prefix)`
/// starts: `greentic:state:<scope>:<prefix>:`.
pub open spec fn fqn_prefix_text(tenant: TenantCtx, prefix: Seq<char>) -> Seq<char> {
    "greentic:state:"@ + scope_text(tenant) + ":"@ + prefix + ":"@
}

/// The fully-qualified name of `(tenant, prefix, key)`:
/// `greentic:state:<scope>:<prefix>:<key>`.
pub open spec fn fqn_text(tenant: TenantCtx, prefix: Seq<char>, key: Seq<char>) -> Seq<char> {
    fqn_prefix_text(tenant, prefix) + key
}

/// The scope of `tenant` as text.
fn tenant_scope(tenant: &TenantCtx) -> (scope: String)
    ensures
        scope@ == scope_text(*tenant),
{
    let mut scope = tenant.env.clone();
    scope.append(":");
    scope.append(tenant.tenant.as_str());
    if let Some(team) = &tenant.team {
        scope.append(":");
        scope.append(team.as_str());
    }
    if let Some(user) = &tenant.user {
        scope.append(":");
        scope.append(user.as_str());
    }
    scope
}

/// Computes the text with which the name of every entry under
/// `(tenant, prefix)` starts. Bulk deletion matches on it.
pub fn fqn_prefix(tenant: &TenantCtx, prefix: &str) -> (text: String)
    ensures
        text@ == fqn_prefix_text(*tenant, prefix@),
{
    let scope = tenant_scope(tenant);
    let mut text = String::from_str("greentic:state:");
    text.append(scope.as_str());
    text.append(":");
    text.append(prefix);
    text.append(":");
    text
}

/// Composes the fully-qualified name of `(tenant, prefix, key)`. The name
/// starts with `fqn_prefix(tenant, prefix)`.
pub fn fqn(tenant: &TenantCtx, prefix: &str, key: &StateKey) -> (name: FqnKey)
    ensures
        name@ == fqn_text(*tenant, prefix@, key@),
        fqn_prefix_text(*tenant, prefix@).is_prefix_of(name@),
{
    let mut text = fqn_prefix(tenant, prefix);
    text.append(key.as_str());
    FqnKey(text)
}

/// Whether `text` holds no colon.
pub open spec fn colon_free(text: Seq<char>) -> bool {
    forall|i: int| 0 <= i < text.len() ==> text[i] != ':'
}

/// Whether no segment holds a colon.
pub open spec fn all_colon_free(segments: Seq<Seq<char>>) -> bool {
    forall|i: int| 0 <= i < segments.len() ==> colon_free(#[trigger] segments[i])
}

/// The segments of a tenant's scope: environment and tenant, then the team
/// and the user where present.
pub open spec fn scope_segments(tenant: TenantCtx) -> Seq<Seq<char>> {
    let base = seq![tenant.env@, tenant.tenant@];
    let with_team = match tenant.team {
        Some(team) => base.push(team@),
        None => base,
    };
    match tenant.user {
        Some(user) => with_team.push(user@),
        None => with_team,
    }
}

/// The segments that lead to the entries under `(tenant, prefix)`.
pub open spec fn prefix_segments(tenant: TenantCtx, prefix: Seq<char>) -> Seq<Seq<char>> {
    scope_segments(tenant).push(prefix)
}

/// The segments written one after the other, each followed by a colon.
pub open spec fn terminated(segments: Seq<Seq<char>>) -> Seq<char>
    decreases segments.len(),
{
    if segments.len() == 0 {
        Seq::empty()
    } else {
        segments[0] + seq![':'] + terminated(segments.skip(1))
    }
}

proof fn lemma_terminated_push(segments: Seq<Seq<char>>, last: Seq<char>)
    ensures
        terminated(segments.push(last)) == terminated(segments) + last + seq![':'],
    decreases segments.len(),
{
    let pushed = segments.push(last);
    if segments.len() == 0 {
        assert(terminated(pushed.skip(1)) =~= Seq::<char>::empty());
    } else {
        assert(pushed.skip(1) =~= segments.skip(1).push(last));
        lemma_terminated_push(segments.skip(1), last);
    }
}

/// The name prefix of `(tenant, prefix)` is the namespace followed by the
/// segments that lead there, each with its colon.
pub proof fn lemma_fqn_prefix_segments(tenant: TenantCtx, prefix: Seq<char>)
    ensures
        fqn_prefix_text(tenant, prefix) == "greentic:state:"@ + terminated(
            prefix_segments(tenant, prefix),
        ),
{
    reveal_strlit(":");
    let none = Seq::<Seq<char>>::empty();
    let base = seq![tenant.env@, tenant.tenant@];
    assert(base =~= none.push(tenant.env@).push(tenant.tenant@));
    lemma_terminated_push(none, tenant.env@);
    lemma_terminated_push(none.push(tenant.env@), tenant.tenant@);
    let with_team = match tenant.team {
        Some(team) => base.push(team@),
        None => base,
    };
    if let Some(team) = tenant.team {
        lemma_terminated_push(base, team@);
    }
    if let Some(user) = tenant.user {
        lemma_terminated_push(with_team, user@);
    }
    lemma_terminated_push(scope_segments(tenant), prefix);
}

/// Among texts without colons, one colon-terminated list starts another,
/// whatever colon-free text follows that one, exactly when it is a prefix of
/// it segment by segment.
pub proof fn lemma_terminated_prefix(xs: Seq<Seq<char>>, ys: Seq<Seq<char>>, tail: Seq<char>)
    requires
        all_colon_free(xs),
        all_colon_free(ys),
        colon_free(tail),
    ensures
        terminated(xs).is_prefix_of(terminated(ys) + tail) <==> xs.is_prefix_of(ys),
    decreases xs.len(),
{
    if xs.len() > 0 {
        let x = xs[0];
        let xs_rest = xs.skip(1);
        let left = terminated(xs);
        let right = terminated(ys) + tail;
        if ys.len() == 0 {
            // The colon behind `x` would have to stand in `tail`.
            if left.is_prefix_of(right) {
                assert(left[x.len() as int] == right.subrange(0, left.len() as int)[x.len() as int]);
            }
        } else {
            let y = ys[0];
            let ys_rest = ys.skip(1);
            let right_rest = terminated(ys_rest) + tail;
            assert forall|i: int| 0 <= i < xs_rest.len() implies colon_free(
                #[trigger] xs_rest[i],
            ) by {}
            assert forall|i: int| 0 <= i < ys_rest.len() implies colon_free(
                #[trigger] ys_rest[i],
            ) by {}
            lemma_terminated_prefix(xs_rest, ys_rest, tail);
            if left.is_prefix_of(right) {
                // The first colon stands behind `x` on the left and behind `y`
                // on the right, so the two are equally long, and equal.
                let cut = right.subrange(0, left.len() as int);
                if x.len() < y.len() {
                    assert(left[x.len() as int] == cut[x.len() as int]);
                } else if x.len() > y.len() {
                    assert(left[y.len() as int] == x[y.len() as int]);
                }
                assert forall|i: int| 0 <= i < x.len() implies x[i] == y[i] by {
                    assert(left[i] == x[i]);
                }
                // What follows them is a prefix again, and the induction applies.
                let inner = terminated(xs_rest);
                assert forall|i: int| 0 <= i < inner.len() implies inner[i] == right_rest[i] by {
                    assert(left[x.len() + 1 + i] == inner[i]);
                }
                assert forall|i: int| 0 <= i < xs.len() implies xs[i] == ys[i] by {
                    if i > 0 {
                        assert(ys_rest.subrange(0, xs_rest.len() as int)[i - 1] == ys[i]);
                    }
                }
            }
            if xs.is_prefix_of(ys) {
                assert forall|i: int| 0 <= i < xs_rest.len() implies xs_rest[i] == ys_rest[i] by {}
                assert forall|i: int| 0 <= i < left.len() implies left[i] == right[i] by {}
            }
        }
    }
}

/// Whether a tenant context, a prefix and a key are free of colons, as
/// callers are asked to keep them.
pub open spec fn well_separated(tenant: TenantCtx, prefix: Seq<char>, key: Seq<char>) -> bool {
    &&& all_colon_free(scope_segments(tenant))
    &&& colon_free(prefix)
    &&& colon_free(key)
}

proof fn lemma_prefix_segments_colon_free(tenant: TenantCtx, prefix: Seq<char>)
    requires
        all_colon_free(scope_segments(tenant)),
        colon_free(prefix),
    ensures
        all_colon_free(prefix_segments(tenant, prefix)),
{
    let all = prefix_segments(tenant, prefix);
    assert forall|i: int| 0 <= i < all.len() implies colon_free(#[trigger] all[i]) by {}
}

/// The name of every entry under `(tenant, prefix)` starts with the name
/// prefix of `(tenant, prefix)`.
pub proof fn lemma_fqn_starts_with_prefix(tenant: TenantCtx, prefix: Seq<char>, key: Seq<char>)
    ensures
        fqn_prefix_text(tenant, prefix).is_prefix_of(fqn_text(tenant, prefix, key)),
{
}

/// Among colon-free inputs, the name of `(b, prefix_b, key_b)` starts with
/// the name prefix of `(a, prefix_a)` exactly when the segments that lead to
/// `(a, prefix_a)` are the first of those that lead to `(b, prefix_b)`.
pub proof fn lemma_prefix_match(
    a: TenantCtx,
    prefix_a: Seq<char>,
    b: TenantCtx,
    prefix_b: Seq<char>,
    key_b: Seq<char>,
)
    requires
        all_colon_free(scope_segments(a)),
        colon_free(prefix_a),
        well_separated(b, prefix_b, key_b),
    ensures
        fqn_prefix_text(a, prefix_a).is_prefix_of(fqn_text(b, prefix_b, key_b))
            <==> prefix_segments(a, prefix_a).is_prefix_of(prefix_segments(b, prefix_b)),
{
    let namespace = "greentic:state:"@;
    let left = terminated(prefix_segments(a, prefix_a));
    let right = terminated(prefix_segments(b, prefix_b)) + key_b;
    lemma_fqn_prefix_segments(a, prefix_a);
    lemma_fqn_prefix_segments(b, prefix_b);
    lemma_prefix_segments_colon_free(a, prefix_a);
    lemma_prefix_segments_colon_free(b, prefix_b);
    lemma_terminated_prefix(prefix_segments(a, prefix_a), prefix_segments(b, prefix_b), key_b);
    if (namespace + left).is_prefix_of(namespace + right) {
        let cut = (namespace + right).subrange(0, (namespace + left).len() as int);
        assert forall|i: int| 0 <= i < left.len() implies left[i] == right[i] by {
            assert((namespace + left)[namespace.len() + i] == cut[namespace.len() + i]);
        }
    }
    if left.is_prefix_of(right) {
        assert forall|i: int| 0 <= i < (namespace + left).len() implies (namespace + left)[i] == (
        namespace + right)[i] by {}
    }
}

/// Among colon-free inputs, two names are equal exactly when their scopes,
/// prefixes and keys are: no two different triples collide.
pub proof fn lemma_fqn_injective(
    a: TenantCtx,
    prefix_a: Seq<char>,
    key_a: Seq<char>,
    b: TenantCtx,
    prefix_b: Seq<char>,
    key_b: Seq<char>,
)
    requires
        well_separated(a, prefix_a, key_a),
        well_separated(b, prefix_b, key_b),
    ensures
        fqn_text(a, prefix_a, key_a) == fqn_text(b, prefix_b, key_b) <==> {
            &&& scope_segments(a) == scope_segments(b)
            &&& prefix_a == prefix_b
            &&& key_a == key_b
        },
{
    let sa = prefix_segments(a, prefix_a);
    let sb = prefix_segments(b, prefix_b);
    let name_a = fqn_text(a, prefix_a, key_a);
    let name_b = fqn_text(b, prefix_b, key_b);
    lemma_fqn_prefix_segments(a, prefix_a);
    lemma_fqn_prefix_segments(b, prefix_b);
    if name_a == name_b {
        lemma_prefix_match(a, prefix_a, b, prefix_b, key_b);
        lemma_prefix_match(b, prefix_b, a, prefix_a, key_a);
        assert(sa =~= sb);
        assert(sa.drop_last() =~= scope_segments(a));
        assert(sb.drop_last() =~= scope_segments(b));
        assert(sa.last() == prefix_a && sb.last() == prefix_b);
        let head = fqn_prefix_text(a, prefix_a);
        assert(key_a =~= name_a.subrange(head.len() as int, name_a.len() as int));
        assert(key_b =~= name_b.subrange(head.len() as int, name_b.len() as int));
    }
}

} // verus!
