//! Model references for `run.model.fallbacks`.
//!
//! Each entry is one of:
//!
//! - a bare token such as `openai` or `gpt-5.4`, of which the parser alone cannot
//!   tell whether it is a provider name or a model alias
//! - a qualified reference such as `gemini:gemini-flash`, which names both a
//!   provider and a model selector
//! - a legacy qualified reference such as `gemini/gemini-flash`, which is accepted
//!   on input and written in the canonical `provider:selector` form
//!
//! The parser produces a [`ModelRef`]; a registry of providers and models resolves
//! it when it is used, see [`ModelRef::resolve`].

use vstd::prelude::*;
use vstd::string::*;

use crate::text::{
    blank, characters, debug_quoted, is_space, join, joined, lemma_position, lemma_position_unique,
    lemma_trimmed, only_blank_text_is_trimmed_away, position, position_of, quoted, text_of, trim,
    trimmed, trimming_undoes_white_space, views,
};

verus! {

/// A parsed model reference. Bare tokens remain ambiguous until resolved against a
/// registry.
#[derive(Debug, Clone, PartialEq, Eq)]
pub enum ModelRef {
    /// A bare token. May be a provider name, a model alias, or a model id.
    Bare(String),
    /// A provider-qualified model selector.
    Qualified { provider: String, selector: String },
}

/// An error returned when parsing a model reference fails.
#[derive(Debug, Clone, PartialEq, Eq)]
pub enum ParseModelRefError {
    /// The input was empty or white space only.
    Empty,
    /// A legacy slash-qualified input contained more than one `/`.
    TooManySlashes { input: String },
    /// The provider or selector side of a qualified reference was empty.
    EmptySide { input: String },
}

/// A model reference as a value.
pub enum Reference {
    Bare(Seq<char>),
    Qualified { provider: Seq<char>, selector: Seq<char> },
}

/// Why a text is no model reference.
pub enum Fault {
    Empty,
    TooManySlashes,
    EmptySide,
}

/// A provider and a selector, unless one of them is empty.
pub open spec fn qualified(provider: Seq<char>, selector: Seq<char>) -> Result<Reference, Fault> {
    if provider.len() == 0 || selector.len() == 0 {
        Err(Fault::EmptySide)
    } else {
        Ok(Reference::Qualified { provider, selector })
    }
}

/// What stands before the first `c` of `s`, and what stands behind it.
pub open spec fn split_at_first(s: Seq<char>, c: char) -> (Seq<char>, Seq<char>) {
    (s.take(position(s, c) as int), s.skip(position(s, c) as int + 1))
}

/// What a text refers to. The first `:` parts provider and selector, and the
/// selector keeps any further `:` or `/`. Without a `:`, a single `/` does.
pub open spec fn reading(input: Seq<char>) -> Result<Reference, Fault> {
    let token = trimmed(input);
    if token.len() == 0 {
        Err(Fault::Empty)
    } else if token.contains(':') {
        let (provider, selector) = split_at_first(token, ':');
        qualified(provider, selector)
    } else if token.contains('/') {
        let (provider, selector) = split_at_first(token, '/');
        if selector.contains('/') {
            Err(Fault::TooManySlashes)
        } else {
            qualified(provider, selector)
        }
    } else {
        Ok(Reference::Bare(token))
    }
}

/// The canonical text of a reference.
pub open spec fn shown(reference: Reference) -> Seq<char> {
    match reference {
        Reference::Bare(token) => token,
        Reference::Qualified { provider, selector } => provider + ":"@ + selector,
    }
}

impl View for ModelRef {
    type V = Reference;

    open spec fn view(&self) -> Reference {
        match *self {
            ModelRef::Bare(token) => Reference::Bare(token@),
            ModelRef::Qualified { provider, selector } => Reference::Qualified {
                provider: provider@,
                selector: selector@,
            },
        }
    }
}

/// The error reports `fault` of the text `input`.
pub open spec fn reports_fault(error: ParseModelRefError, fault: Fault, input: Seq<char>) -> bool {
    match (fault, error) {
        (Fault::Empty, ParseModelRefError::Empty) => true,
        (Fault::TooManySlashes, ParseModelRefError::TooManySlashes { input: text }) => text@
            == input,
        (Fault::EmptySide, ParseModelRefError::EmptySide { input: text }) => text@ == input,
        _ => false,
    }
}

/// The message of a parse error.
pub open spec fn fault_message(error: ParseModelRefError) -> Seq<char> {
    match error {
        ParseModelRefError::Empty => "model reference is empty"@,
        ParseModelRefError::TooManySlashes { input } => "model reference "@ + debug_quoted(input@)
            + ": qualify it as \"provider:selector\" when the selector contains \"/\""@,
        ParseModelRefError::EmptySide { input } => "model reference "@ + debug_quoted(input@)
            + ": provider and selector sides must both be non-empty"@,
    }
}

impl ParseModelRefError {
    /// The message of the error.
    pub fn to_string(&self) -> (r: String)
        ensures
            r@ == fault_message(*self),
    {
        match self {
            ParseModelRefError::Empty => "model reference is empty".to_owned(),
            ParseModelRefError::TooManySlashes { input } => {
                let mut r = "model reference ".to_owned();
                r.append(quoted(input.as_str()).as_str());
                r.append(
                    ": qualify it as \"provider:selector\" when the selector contains \"/\"",
                );
                r
            },
            ParseModelRefError::EmptySide { input } => {
                let mut r = "model reference ".to_owned();
                r.append(quoted(input.as_str()).as_str());
                r.append(": provider and selector sides must both be non-empty");
                r
            },
        }
    }
}

impl ModelRef {
    /// Reads a model reference.
    pub fn parse(input: &str) -> (r: Result<ModelRef, ParseModelRefError>)
        ensures
            match (r, reading(input@)) {
                (Ok(reference), Ok(expected)) => reference@ == expected,
                (Err(error), Err(fault)) => reports_fault(error, fault, input@),
                _ => false,
            },
    {
        let token = trim(input);
        let chars = characters(token);
        if chars.len() == 0 {
            return Err(ParseModelRefError::Empty);
        }
        let n: usize = chars.len();
        let colon: usize = position_of(&chars, ':');
        let slash: usize = position_of(&chars, '/');
        proof {
            lemma_position(token@, ':');
            lemma_position(token@, '/');
        }
        let at: usize = if colon < n {
            colon
        } else if slash < n {
            let ghost rest = token@.skip(slash + 1);
            let mut i: usize = slash + 1;
            while i < n
                invariant
                    n == chars@.len(),
                    chars@ == token@,
                    slash + 1 <= i <= n,
                    rest == token@.skip(slash + 1),
                    colon == n,
                    colon == position(token@, ':'),
                    slash == position(token@, '/'),
                    token@ == trimmed(input@),
                    token@.len() > 0,
                    !token@.contains(':'),
                    token@.contains('/'),
                    forall|j: int| slash < j < i ==> token@[j] != '/',
                decreases n - i,
            {
                if chars[i] == '/' {
                    proof {
                        assert(rest[i - slash - 1] == '/');
                    }
                    return Err(ParseModelRefError::TooManySlashes { input: input.to_owned() });
                }
                i += 1;
            }
            proof {
                assert(!rest.contains('/')) by {
                    if rest.contains('/') {
                        let k = choose|k: int| 0 <= k < rest.len() && rest[k] == '/';
                        assert(token@[k + slash + 1] == '/');
                    }
                }
            }
            slash
        } else {
            return Ok(ModelRef::Bare(token.to_owned()));
        };
        if at == 0 || at + 1 == n {
            return Err(ParseModelRefError::EmptySide { input: input.to_owned() });
        }
        let provider = text_of(&chars, 0, at);
        let selector = text_of(&chars, at + 1, n);
        proof {
            assert(provider@ =~= token@.take(at as int));
            assert(selector@ =~= token@.skip(at + 1));
        }
        Ok(ModelRef::Qualified { provider, selector })
    }

    /// The canonical text of the reference.
    pub fn to_string(&self) -> (r: String)
        ensures
            r@ == shown(self@),
    {
        match self {
            ModelRef::Bare(token) => token.clone(),
            ModelRef::Qualified { provider, selector } => {
                let mut r = provider.clone();
                r.append(":");
                r.append(selector.as_str());
                r
            },
        }
    }
}

impl std::str::FromStr for ModelRef {
    type Err = ParseModelRefError;

    fn from_str(input: &str) -> (r: Result<ModelRef, ParseModelRefError>)
        ensures
            match (r, reading(input@)) {
                (Ok(reference), Ok(expected)) => reference@ == expected,
                (Err(error), Err(fault)) => reports_fault(error, fault, input@),
                _ => false,
            },
    {
        ModelRef::parse(input)
    }
}

/// An error returned when resolving an ambiguous bare model reference.
#[derive(Debug, Clone, PartialEq, Eq)]
pub struct AmbiguousModelRef {
    pub input: String,
    pub providers: Vec<String>,
    pub models: Vec<String>,
}

/// What `{:?}` writes for a list of texts.
pub open spec fn debug_list(texts: Seq<Seq<char>>) -> Seq<char> {
    "["@ + joined(texts.map_values(|t: Seq<char>| debug_quoted(t)), ", "@) + "]"@
}

fn quoted_list(texts: &Vec<String>) -> (r: String)
    ensures
        r@ == debug_list(views(texts@)),
{
    let mut pieces: Vec<String> = Vec::new();
    let mut i: usize = 0;
    while i < texts.len()
        invariant
            i <= texts@.len(),
            pieces@.len() == i,
            forall|j: int| 0 <= j < i ==> (#[trigger] pieces@[j])@ == debug_quoted(texts@[j]@),
        decreases texts@.len() - i,
    {
        pieces.push(quoted(texts[i].as_str()));
        i += 1;
    }
    proof {
        assert(views(pieces@) =~= views(texts@).map_values(|t: Seq<char>| debug_quoted(t)));
    }
    let mut r = "[".to_owned();
    r.append(join(&pieces, ", ").as_str());
    r.append("]");
    r
}

/// The message of an ambiguity.
pub open spec fn ambiguity_message(error: AmbiguousModelRef) -> Seq<char> {
    "model reference "@ + debug_quoted(error.input@) + " is ambiguous: matches provider names "@
        + debug_list(views(error.providers@)) + " and model names "@ + debug_list(
        views(error.models@),
    ) + "; qualify it as \"provider:model\""@
}

impl AmbiguousModelRef {
    /// The message of the error.
    pub fn to_string(&self) -> (r: String)
        ensures
            r@ == ambiguity_message(*self),
    {
        let mut r = "model reference ".to_owned();
        r.append(quoted(self.input.as_str()).as_str());
        r.append(" is ambiguous: matches provider names ");
        r.append(quoted_list(&self.providers).as_str());
        r.append(" and model names ");
        r.append(quoted_list(&self.models).as_str());
        r.append("; qualify it as \"provider:model\"");
        r
    }
}

/// The resolved form of a model reference after registry lookup.
#[derive(Debug, Clone, PartialEq, Eq)]
pub enum ResolvedModelRef {
    /// The reference named a provider; the runtime picks the best model from it.
    Provider(String),
    /// The reference named a model (qualified or unambiguously bare).
    Model { provider: Option<String>, selector: String },
}

/// A minimal registry view used by [`ModelRef::resolve`].
///
/// Each method reports whether a bare token is a known provider or model.
pub trait ModelRegistry {
    fn is_provider(&self, token: &str) -> bool;

    fn is_model(&self, token: &str) -> bool;
}

/// What a reference resolves to where the registry gave these answers for its token.
pub open spec fn resolves_to(
    reference: ModelRef,
    is_provider: bool,
    is_model: bool,
    r: Result<ResolvedModelRef, AmbiguousModelRef>,
) -> bool {
    match reference {
        ModelRef::Qualified { provider, selector } => r == Ok::<ResolvedModelRef, AmbiguousModelRef>(
            ResolvedModelRef::Model { provider: Some(provider), selector },
        ),
        ModelRef::Bare(token) => if is_provider && is_model {
            r matches Err(error) && error.input == token && error.providers@ == seq![token]
                && error.models@ == seq![token]
        } else if is_provider {
            r == Ok::<ResolvedModelRef, AmbiguousModelRef>(ResolvedModelRef::Provider(token))
        } else {
            r == Ok::<ResolvedModelRef, AmbiguousModelRef>(
                ResolvedModelRef::Model { provider: None, selector: token },
            )
        },
    }
}

/// The registry may answer so about the token.
pub open spec fn answers<R: ModelRegistry + ?Sized>(
    registry: &R,
    token: String,
    is_provider: bool,
    is_model: bool,
) -> bool {
    exists|text: &str| #[trigger]
        text@ == token@ && call_ensures(R::is_provider, (registry, text), is_provider)
            && call_ensures(R::is_model, (registry, text), is_model)
}

impl ModelRef {
    /// Resolves the reference by what a registry says of its token.
    pub fn resolve_with(&self, is_provider: bool, is_model: bool) -> (r: Result<
        ResolvedModelRef,
        AmbiguousModelRef,
    >)
        ensures
            resolves_to(*self, is_provider, is_model, r),
    {
        match self {
            ModelRef::Qualified { provider, selector } => Ok(
                ResolvedModelRef::Model {
                    provider: Some(provider.clone()),
                    selector: selector.clone(),
                },
            ),
            ModelRef::Bare(token) => {
                if is_provider && is_model {
                    let mut providers: Vec<String> = Vec::new();
                    providers.push(token.clone());
                    let mut models: Vec<String> = Vec::new();
                    models.push(token.clone());
                    let error = AmbiguousModelRef { input: token.clone(), providers, models };
                    proof {
                        assert(error.providers@ =~= seq![*token]);
                        assert(error.models@ =~= seq![*token]);
                    }
                    Err(error)
                } else if is_provider {
                    Ok(ResolvedModelRef::Provider(token.clone()))
                } else {
                    Ok(ResolvedModelRef::Model { provider: None, selector: token.clone() })
                }
            },
        }
    }

    /// Resolves the reference against a registry.
    ///
    /// - [`ModelRef::Qualified`] always resolves to a model.
    /// - [`ModelRef::Bare`] resolves to a provider if the token is only a provider, to a
    ///   model if the token is only a model or unknown, and is ambiguous if the token
    ///   is both.
    pub fn resolve<R: ModelRegistry + ?Sized>(&self, registry: &R) -> (r: Result<
        ResolvedModelRef,
        AmbiguousModelRef,
    >)
        ensures
            *self is Qualified ==> r is Ok,
            exists|is_provider: bool, is_model: bool| #[trigger]
                resolves_to(*self, is_provider, is_model, r) && (*self matches ModelRef::Bare(token)
                    ==> answers(registry, token, is_provider, is_model)),
    {
        match self {
            ModelRef::Qualified { .. } => self.resolve_with(false, false),
            ModelRef::Bare(token) => {
                let text = token.as_str();
                let is_provider = registry.is_provider(text);
                let is_model = registry.is_model(text);
                proof {
                    assert(text@ == token@);
                    assert(answers(registry, *token, is_provider, is_model));
                }
                self.resolve_with(is_provider, is_model)
            },
        }
    }
}

proof fn lemma_split(s: Seq<char>, c: char)
    requires
        s.contains(c),
    ensures
        s == split_at_first(s, c).0 + seq![c] + split_at_first(s, c).1,
        !split_at_first(s, c).0.contains(c),
{
    lemma_position(s, c);
    let (a, b) = split_at_first(s, c);
    assert(s =~= a + seq![c] + b);
}

proof fn lemma_rejoined(provider: Seq<char>, selector: Seq<char>)
    requires
        provider.len() > 0,
        selector.len() > 0,
        !provider.contains(':'),
        !is_space(provider.first()),
        !is_space(selector.last()),
    ensures
        reading(provider + ":"@ + selector) == Ok::<Reference, Fault>(
            Reference::Qualified { provider, selector },
        ),
{
    reveal_strlit(":");
    let whole = provider + ":"@ + selector;
    assert(whole[provider.len() as int] == ':');
    assert(whole.contains(':'));
    assert(whole.first() == provider.first());
    assert(whole.last() == selector.last());
    lemma_trimmed(whole);
    assert forall|i: int| 0 <= i < provider.len() implies whole[i] != ':' by {
        assert(whole[i] == provider[i]);
    }
    lemma_position_unique(whole, ':', provider.len() as int);
    assert(split_at_first(whole, ':').0 =~= provider);
    assert(split_at_first(whole, ':').1 =~= selector);
}

/// Writing a reference that was read, and reading it again, gives the same reference.
pub proof fn shown_references_read_back(input: Seq<char>)
    requires
        reading(input) is Ok,
    ensures
        reading(shown(reading(input)->Ok_0)) == reading(input),
{
    let token = trimmed(input);
    lemma_trimmed(input);
    lemma_trimmed(token);
    match reading(input)->Ok_0 {
        Reference::Bare(t) => {},
        Reference::Qualified { provider, selector } => {
            let c = if token.contains(':') { ':' } else { '/' };
            lemma_split(token, c);
            assert(provider.first() == token.first());
            assert(selector.last() == token.last());
            if c == '/' && provider.contains(':') {
                let k = choose|k: int| 0 <= k < provider.len() && provider[k] == ':';
                assert(token[k] == ':');
            }
            lemma_rejoined(provider, selector);
        },
    }
}

/// A reference in canonical form is written as it was read, but for white space
/// around it.
pub proof fn canonical_references_are_shown_unchanged(input: Seq<char>)
    requires
        reading(input) is Ok,
        trimmed(input).contains(':') || !trimmed(input).contains('/'),
    ensures
        shown(reading(input)->Ok_0) == trimmed(input),
{
    reveal_strlit(":");
    let token = trimmed(input);
    if token.contains(':') {
        lemma_split(token, ':');
        assert(":"@ =~= seq![':']);
    }
}

/// A legacy reference is written with `:` in place of its `/`.
pub proof fn legacy_references_are_shown_with_a_colon(provider: Seq<char>, selector: Seq<char>)
    requires
        provider.len() > 0,
        selector.len() > 0,
        !(provider + selector).contains(':'),
        !(provider + selector).contains('/'),
        !is_space(provider.first()),
        !is_space(selector.last()),
    ensures
        reading(provider + "/"@ + selector) == reading(provider + ":"@ + selector),
        shown(reading(provider + "/"@ + selector)->Ok_0) == provider + ":"@ + selector,
{
    reveal_strlit("/");
    reveal_strlit(":");
    let both = provider + selector;
    let whole = provider + "/"@ + selector;
    assert forall|i: int| 0 <= i < provider.len() implies provider[i] != ':' && provider[i] != '/' by {
        assert(both[i] == provider[i]);
    }
    assert forall|i: int| 0 <= i < selector.len() implies selector[i] != ':' && selector[i] != '/' by {
        assert(both[i + provider.len()] == selector[i]);
    }
    assert(whole.first() == provider.first());
    assert(whole.last() == selector.last());
    lemma_trimmed(whole);
    assert(whole[provider.len() as int] == '/');
    assert(!whole.contains(':')) by {
        if whole.contains(':') {
            let k = choose|k: int| 0 <= k < whole.len() && whole[k] == ':';
            if k < provider.len() {
                assert(provider[k] == ':');
            } else if k > provider.len() {
                assert(selector[k - provider.len() - 1] == ':');
            }
        }
    }
    lemma_position_unique(whole, '/', provider.len() as int);
    assert(split_at_first(whole, '/').0 =~= provider);
    assert(split_at_first(whole, '/').1 =~= selector);
    lemma_rejoined(provider, selector);
}

/// A qualified reference is never ambiguous, whatever the registry knows.
pub proof fn qualified_references_are_never_ambiguous(
    reference: ModelRef,
    is_provider: bool,
    is_model: bool,
    r: Result<ResolvedModelRef, AmbiguousModelRef>,
)
    requires
        reference is Qualified,
        resolves_to(reference, is_provider, is_model, r),
    ensures
        r is Ok,
        r->Ok_0 is Model,
{
}

/// A provider and a selector with a colon between them, and white space around, are read as
/// written; the selector may hold colons and slashes of its own.
pub proof fn qualified_references_are_read_as_written(
    input: &str,
    r: Result<ModelRef, ParseModelRefError>,
    before: Seq<char>,
    provider: Seq<char>,
    selector: Seq<char>,
    after: Seq<char>,
)
    requires
        call_ensures(ModelRef::parse, (input,), r),
        blank(before),
        blank(after),
        input@ == before + provider + seq![':'] + selector + after,
        provider.len() > 0,
        selector.len() > 0,
        !provider.contains(':'),
        !is_space(provider.first()),
        !is_space(selector.last()),
    ensures
        r matches Ok(ModelRef::Qualified { provider: p, selector: s }) && p@ == provider && s@
            == selector,
{
    reveal_strlit(":");
    let token = provider + ":"@ + selector;
    assert(input@ =~= before + token + after);
    assert(token.first() == provider.first());
    assert(token.last() == selector.last());
    trimming_undoes_white_space(before, token, after);
    lemma_rejoined(provider, selector);
    trimming_undoes_white_space(Seq::empty(), token, Seq::empty());
    assert(Seq::<char>::empty() + token + Seq::<char>::empty() =~= token);
}

/// A text without a colon or a slash is one token, taken without the white space around it;
/// two texts and one slash are a provider and a selector.
pub proof fn other_references_are_read_as_written(
    input: &str,
    r: Result<ModelRef, ParseModelRefError>,
    before: Seq<char>,
    token: Seq<char>,
    after: Seq<char>,
    provider: Seq<char>,
    selector: Seq<char>,
)
    requires
        call_ensures(ModelRef::parse, (input,), r),
        blank(before),
        blank(after),
        input@ == before + token + after,
        token.len() > 0,
        !is_space(token.first()),
        !is_space(token.last()),
        !token.contains(':'),
    ensures
        !token.contains('/') ==> (r matches Ok(ModelRef::Bare(t)) && t@ == token),
        token == provider + seq!['/'] + selector && !provider.contains('/') && !selector.contains(
            '/',
        ) && provider.len() > 0 && selector.len() > 0 ==> (r matches Ok(
            ModelRef::Qualified { provider: p, selector: s },
        ) && p@ == provider && s@ == selector),
        token == provider + seq!['/'] + selector && !provider.contains('/') && selector.contains(
            '/',
        ) ==> (r matches Err(ParseModelRefError::TooManySlashes { input: text }) && text@
            == input@),
        token == seq!['/'] + selector && !selector.contains('/') ==> r matches Err(
            ParseModelRefError::EmptySide { .. },
        ),
        token == provider + seq!['/'] && !provider.contains('/') ==> r matches Err(
            ParseModelRefError::EmptySide { .. },
        ),
{
    trimming_undoes_white_space(before, token, after);
    if token == provider + seq!['/'] + selector && !provider.contains('/') {
        lemma_parted(token, provider, selector);
    }
    let none = Seq::<char>::empty();
    if token == seq!['/'] + selector && !selector.contains('/') {
        assert(token =~= none + seq!['/'] + selector);
        lemma_parted(token, none, selector);
    }
    if token == provider + seq!['/'] && !provider.contains('/') {
        assert(token =~= provider + seq!['/'] + none);
        lemma_parted(token, provider, none);
    }
}

proof fn lemma_parted(token: Seq<char>, provider: Seq<char>, selector: Seq<char>)
    requires
        token == provider + seq!['/'] + selector,
        !provider.contains('/'),
    ensures
        token.contains('/'),
        split_at_first(token, '/') == (provider, selector),
{
    assert(token[provider.len() as int] == '/');
    assert forall|i: int| 0 <= i < provider.len() implies token[i] != '/' by {
        assert(token[i] == provider[i]);
    }
    lemma_position_unique(token, '/', provider.len() as int);
    assert(split_at_first(token, '/').0 =~= provider);
    assert(split_at_first(token, '/').1 =~= selector);
}

/// A text of white space is no reference, and neither is one that begins or ends, but for
/// white space, with the colon that parts it.
pub proof fn empty_references_are_refused(
    input: &str,
    r: Result<ModelRef, ParseModelRefError>,
    before: Seq<char>,
    rest: Seq<char>,
    after: Seq<char>,
)
    requires
        call_ensures(ModelRef::parse, (input,), r),
        blank(before),
        blank(after),
    ensures
        blank(input@) <==> r matches Err(ParseModelRefError::Empty),
        input@ == before + seq![':'] + rest + after && (rest.len() > 0 ==> !is_space(rest.last()))
            ==> (r matches Err(ParseModelRefError::EmptySide { input: text }) && text@ == input@),
        input@ == before + rest + seq![':'] + after && rest.len() > 0 && !is_space(rest.first())
            && !rest.contains(':') ==> (r matches Err(
            ParseModelRefError::EmptySide { input: text },
        ) && text@ == input@),
{
    only_blank_text_is_trimmed_away(input@);
    if input@ == before + seq![':'] + rest + after && (rest.len() > 0 ==> !is_space(rest.last())) {
        let token = seq![':'] + rest;
        assert(input@ =~= before + token + after);
        assert(token[0] == ':');
        assert(token.last() == if rest.len() > 0 {
            rest.last()
        } else {
            ':'
        });
        trimming_undoes_white_space(before, token, after);
        assert(token.contains(':'));
        lemma_position_unique(token, ':', 0);
    }
    if input@ == before + rest + seq![':'] + after && rest.len() > 0 && !is_space(rest.first())
        && !rest.contains(':') {
        let token = rest + seq![':'];
        assert(input@ =~= before + token + after);
        assert(token.first() == rest.first());
        assert(token.last() == ':');
        trimming_undoes_white_space(before, token, after);
        assert(token[rest.len() as int] == ':');
        assert(token.contains(':'));
        assert forall|i: int| 0 <= i < rest.len() implies token[i] != ':' by {
            assert(token[i] == rest[i]);
        }
        lemma_position_unique(token, ':', rest.len() as int);
    }
}

/// A reference is written with a colon between its provider and its selector, and a token
/// as it is.
pub proof fn references_are_written_with_a_colon(reference: ModelRef, r: String)
    requires
        call_ensures(ModelRef::to_string, (&reference,), r),
    ensures
        reference matches ModelRef::Bare(token) ==> r@ == token@,
        reference matches ModelRef::Qualified { provider, selector } ==> r@ == provider@
            + seq![':'] + selector@,
{
    reveal_strlit(":");
    assert(":"@ =~= seq![':']);
}

/// A token is a provider where only a provider is known by it, and a model where none is;
/// where both are, it is ambiguous and must be qualified. A qualified reference is never
/// asked about.
pub proof fn tokens_resolve_by_what_is_known(
    reference: ModelRef,
    is_provider: bool,
    is_model: bool,
    r: Result<ResolvedModelRef, AmbiguousModelRef>,
)
    requires
        call_ensures(ModelRef::resolve_with, (&reference, is_provider, is_model), r),
    ensures
        reference matches ModelRef::Qualified { provider, selector } ==> r == Ok::<
            ResolvedModelRef,
            AmbiguousModelRef,
        >(ResolvedModelRef::Model { provider: Some(provider), selector }),
        reference matches ModelRef::Bare(token) ==> {
            &&& is_provider && is_model ==> (r matches Err(error) && error.input == token)
            &&& is_provider && !is_model ==> r == Ok::<ResolvedModelRef, AmbiguousModelRef>(
                ResolvedModelRef::Provider(token),
            )
            &&& !is_provider ==> r == Ok::<ResolvedModelRef, AmbiguousModelRef>(
                ResolvedModelRef::Model { provider: None, selector: token },
            )
        },
{
}

/// What is wrong with a reference is said with the reference itself.
pub proof fn parse_faults_name_their_input(error: ParseModelRefError, r: String)
    requires
        call_ensures(ParseModelRefError::to_string, (&error,), r),
    ensures
        error is Empty ==> r@ == "model reference is empty"@,
        error matches ParseModelRefError::TooManySlashes { input } ==> r@ == "model reference "@
            + debug_quoted(input@)
            + ": qualify it as \"provider:selector\" when the selector contains \"/\""@,
        error matches ParseModelRefError::EmptySide { input } ==> r@ == "model reference "@
            + debug_quoted(input@) + ": provider and selector sides must both be non-empty"@,
{
}

/// Resolving against a registry gives what it knows of a token, and a qualified reference
/// resolves to itself whatever it knows.
pub proof fn registries_decide_about_tokens_only<R: ModelRegistry + ?Sized>(
    reference: ModelRef,
    registry: &R,
    r: Result<ResolvedModelRef, AmbiguousModelRef>,
)
    requires
        call_ensures(ModelRef::resolve::<R>, (&reference, registry), r),
    ensures
        reference matches ModelRef::Qualified { provider, selector } ==> r == Ok::<
            ResolvedModelRef,
            AmbiguousModelRef,
        >(ResolvedModelRef::Model { provider: Some(provider), selector }),
        reference matches ModelRef::Bare(token) ==> match r {
            Ok(ResolvedModelRef::Provider(name)) => name == token,
            Ok(ResolvedModelRef::Model { provider, selector }) => provider is None && selector
                == token,
            Err(error) => error.input == token && error.providers@ == seq![token] && error.models@
                == seq![token],
        },
{
}

} // verus!
