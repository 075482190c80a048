//! Sources of credentials for model providers.

use vstd::prelude::*;

use crate::text_map::TextMap;

verus! {

/// A credential for a provider.
#[derive(Debug, PartialEq, Eq)]
pub struct ApiCredential {
    pub provider: String,
    pub auth_header: Option<String>,
    pub extra_headers: TextMap<String>,
    pub base_url: Option<String>,
    pub codex_mode: bool,
    pub org_id: Option<String>,
    pub project_id: Option<String>,
}

/// What a source gives: credentials, and what kept it from giving others.
#[derive(Debug, PartialEq, Eq)]
pub struct ResolvedCredentials {
    pub credentials: Vec<ApiCredential>,
    pub auth_issues: Vec<(String, String)>,
}

/// Decorates another source by appending fixed extra headers to every credential it
/// resolves. Headers already present on a credential are left untouched.
#[derive(Debug, PartialEq, Eq)]
pub struct ExtraHeadersCredentialSource<S> {
    pub inner: S,
    pub headers: TextMap<String>,
}

/// The credential with the headers that it does not have.
pub open spec fn decorated(
    before: ApiCredential,
    headers: Map<Seq<char>, String>,
    after: ApiCredential,
) -> bool {
    &&& after.provider == before.provider
    &&& after.auth_header == before.auth_header
    &&& after.extra_headers@ == headers.union_prefer_right(before.extra_headers@)
    &&& after.base_url == before.base_url
    &&& after.codex_mode == before.codex_mode
    &&& after.org_id == before.org_id
    &&& after.project_id == before.project_id
}

fn add_headers(credential: ApiCredential, headers: &TextMap<String>) -> (r: ApiCredential)
    ensures
        decorated(credential, headers@, r),
{
    let mut r = credential;
    let mut all = headers.copied();
    let mut extra: TextMap<String> = TextMap::new();
    std::mem::swap(&mut extra, &mut r.extra_headers);
    all.extend(extra);
    r.extra_headers = all;
    r
}

impl<S> ExtraHeadersCredentialSource<S> {
    /// A source that appends `headers` to what `inner` resolves.
    pub fn new(inner: S, headers: TextMap<String>) -> (r: Self)
        ensures
            r.inner == inner,
            r.headers == headers,
    {
        ExtraHeadersCredentialSource { inner, headers }
    }

    /// What the decorated source gives where the inner one gave `inner`. A failure of the
    /// inner one is passed through, and so is what kept it from giving more.
    pub fn resolve<E>(&self, inner: Result<ResolvedCredentials, E>) -> (r: Result<
        ResolvedCredentials,
        E,
    >)
        ensures
            match (inner, r) {
                (Ok(resolved), Ok(all)) => {
                    &&& all.auth_issues == resolved.auth_issues
                    &&& all.credentials@.len() == resolved.credentials@.len()
                    &&& forall|i: int|
                        #![trigger all.credentials@[i]]
                        0 <= i < all.credentials@.len() ==> decorated(
                            resolved.credentials@[i],
                            self.headers@,
                            all.credentials@[i],
                        )
                },
                (Err(error), Err(e)) => e == error,
                _ => false,
            },
    {
        let resolved = match inner {
            Ok(resolved) => resolved,
            Err(error) => {
                return Err(error);
            },
        };
        let ghost given = resolved.credentials@;
        let mut rest = resolved.credentials;
        let mut credentials: Vec<ApiCredential> = Vec::new();
        while rest.len() > 0
            invariant
                given == resolved.credentials@,
                credentials@.len() + rest@.len() == given.len(),
                rest@ == given.skip(credentials@.len() as int),
                forall|i: int|
                    #![trigger credentials@[i]]
                    0 <= i < credentials@.len() ==> decorated(
                        given[i],
                        self.headers@,
                        credentials@[i],
                    ),
            decreases rest@.len(),
        {
            let ghost at = credentials@.len() as int;
            let credential = rest.remove(0);
            proof {
                assert(credential == given[at]);
                assert(rest@ =~= given.skip(at + 1));
            }
            credentials.push(add_headers(credential, &self.headers));
        }
        Ok(ResolvedCredentials { credentials, auth_issues: resolved.auth_issues })
    }

    /// The providers that the decorated source is configured for: those of the inner one.
    pub fn configured_providers(&self, inner: Vec<String>) -> (r: Vec<String>)
        ensures
            r == inner,
    {
        inner
    }
}

/// A header that a credential has keeps its value, and one that it lacks gets the value
/// that is appended.
pub proof fn present_headers_are_untouched(
    before: ApiCredential,
    headers: Map<Seq<char>, String>,
    after: ApiCredential,
    name: Seq<char>,
)
    requires
        decorated(before, headers, after),
    ensures
        before.extra_headers@.dom().contains(name) ==> after.extra_headers@.dom().contains(name)
            && after.extra_headers@[name] == before.extra_headers@[name],
        !before.extra_headers@.dom().contains(name) && headers.dom().contains(name)
            ==> after.extra_headers@.dom().contains(name) && after.extra_headers@[name]
            == headers[name],
        !before.extra_headers@.dom().contains(name) && !headers.dom().contains(name)
            ==> !after.extra_headers@.dom().contains(name),
{
}

/// A source that resolves nothing.
#[derive(Debug, Clone, Copy, PartialEq, Eq, Structural)]
pub struct StubCredentialSource;

impl Default for StubCredentialSource {
    fn default() -> (r: Self)
        ensures
            r == StubCredentialSource,
    {
        StubCredentialSource
    }
}

impl StubCredentialSource {
    /// No credentials and no issues.
    pub fn resolve(&self) -> (r: ResolvedCredentials)
        ensures
            r.credentials@.len() == 0,
            r.auth_issues@.len() == 0,
    {
        ResolvedCredentials { credentials: Vec::new(), auth_issues: Vec::new() }
    }

    /// No providers.
    pub fn configured_providers(&self) -> (r: Vec<String>)
        ensures
            r@.len() == 0,
    {
        Vec::new()
    }
}

/// A source over a vault of secrets, which falls back to looking a name up elsewhere
/// where it is given a way to.
#[derive(Debug, PartialEq, Eq)]
pub struct VaultCredentialSource<F> {
    pub vault: TextMap<String>,
    pub env_lookup: Option<F>,
}

/// A vault that holds no secrets.
pub fn empty_vault() -> (r: TextMap<String>)
    ensures
        r@ == Map::<Seq<char>, String>::empty(),
{
    TextMap::new()
}

/// A source over an empty vault whose credentials come only from `env_lookup`.
pub fn env_credential_source<F>(env_lookup: F) -> (r: VaultCredentialSource<F>)
    ensures
        r.vault@ == Map::<Seq<char>, String>::empty(),
        r.env_lookup == Some(env_lookup),
{
    VaultCredentialSource { vault: empty_vault(), env_lookup: Some(env_lookup) }
}

/// A source over an empty vault without anything to fall back to.
pub fn vault_only_credential_source<F>() -> (r: VaultCredentialSource<F>)
    ensures
        r.vault@ == Map::<Seq<char>, String>::empty(),
        r.env_lookup is None,
{
    VaultCredentialSource { vault: empty_vault(), env_lookup: None }
}

/// A source with extra headers gives as many credentials as the one it decorates, for the
/// same providers and with the same secrets. Each has every header that it had, unchanged,
/// and every extra header; a failure is passed on.
pub proof fn every_credential_gets_the_headers<S, E>(
    source: ExtraHeadersCredentialSource<S>,
    inner: Result<ResolvedCredentials, E>,
    r: Result<ResolvedCredentials, E>,
    i: int,
    name: Seq<char>,
)
    requires
        call_ensures(ExtraHeadersCredentialSource::<S>::resolve::<E>, (&source, inner), r),
    ensures
        inner matches Err(error) ==> r == Err::<ResolvedCredentials, E>(error),
        inner matches Ok(given) ==> (r matches Ok(all) && {
            &&& all.auth_issues == given.auth_issues
            &&& all.credentials@.len() == given.credentials@.len()
            &&& 0 <= i < given.credentials@.len() ==> {
                let before = given.credentials@[i];
                let after = all.credentials@[i];
                &&& after.provider == before.provider
                &&& after.auth_header == before.auth_header
                &&& after.base_url == before.base_url
                &&& after.codex_mode == before.codex_mode
                &&& after.org_id == before.org_id
                &&& after.project_id == before.project_id
                &&& before.extra_headers@.dom().contains(name)
                    ==> after.extra_headers@.dom().contains(name) && after.extra_headers@[name]
                    == before.extra_headers@[name]
                &&& source.headers@.dom().contains(name) ==> after.extra_headers@.dom().contains(
                    name,
                )
                &&& source.headers@.dom().contains(name)
                    && !before.extra_headers@.dom().contains(name)
                    ==> after.extra_headers@[name] == source.headers@[name]
                &&& after.extra_headers@.dom().contains(name)
                    ==> before.extra_headers@.dom().contains(name)
                    || source.headers@.dom().contains(name)
            }
        }),
{
    if let (Ok(given), Ok(all)) = (inner, r) {
        if 0 <= i < given.credentials@.len() {
            assert(decorated(given.credentials@[i], source.headers@, all.credentials@[i]));
        }
    }
}

/// A stub has nothing to give, and a source over an empty vault gives only what can be
/// looked up elsewhere, if anything can.
pub proof fn empty_sources_give_nothing<F>(
    stub: StubCredentialSource,
    resolved: ResolvedCredentials,
    providers: Vec<String>,
    lookup: F,
    from_env: VaultCredentialSource<F>,
    vault_only: VaultCredentialSource<F>,
    name: Seq<char>,
)
    requires
        call_ensures(StubCredentialSource::resolve, (&stub,), resolved),
        call_ensures(StubCredentialSource::configured_providers, (&stub,), providers),
        call_ensures(env_credential_source::<F>, (lookup,), from_env),
        call_ensures(vault_only_credential_source::<F>, (), vault_only),
    ensures
        resolved.credentials@.len() == 0,
        resolved.auth_issues@.len() == 0,
        providers@.len() == 0,
        !from_env.vault@.dom().contains(name),
        from_env.env_lookup == Some(lookup),
        !vault_only.vault@.dom().contains(name),
        vault_only.env_lookup is None,
{
}

/// Extra headers change nothing about which providers are configured.
pub proof fn headers_configure_no_provider<S>(
    inner: S,
    headers: TextMap<String>,
    source: ExtraHeadersCredentialSource<S>,
    providers: Vec<String>,
    r: Vec<String>,
)
    requires
        call_ensures(ExtraHeadersCredentialSource::<S>::new, (inner, headers), source),
        call_ensures(
            ExtraHeadersCredentialSource::<S>::configured_providers,
            (&source, providers),
            r,
        ),
    ensures
        source.inner == inner,
        source.headers == headers,
        r == providers,
{
}

} // verus!
