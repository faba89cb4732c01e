use crate::text::{optional_str, optional_text};
use vstd::prelude::*;
use vstd::string::*;

verus! {

/// The mathematical value of a set of OpenAI-shaped options, owned or
/// borrowed.
pub struct OpenAIOptionsView {
    pub base_url: Option<Seq<char>>,
    pub model: Option<Seq<char>>,
    pub api_key: Option<Seq<char>>,
}

/// The mathematical value of a set of options of any provider.
pub enum OptionsView {
    OpenAI(OpenAIOptionsView),
    Whatever,
}

/// The value that wins for one field: the override where it is set, else the
/// base.
pub open spec fn prefer<T>(over: Option<T>, base: Option<T>) -> Option<T> {
    if over is Some {
        over
    } else {
        base
    }
}

impl OpenAIOptionsView {
    /// No field set.
    pub open spec fn unset() -> Self {
        OpenAIOptionsView { base_url: None, model: None, api_key: None }
    }

    /// `self` as the base and `other` as the override, field by field.
    pub open spec fn merge(self, other: Self) -> Self {
        OpenAIOptionsView {
            base_url: prefer(other.base_url, self.base_url),
            model: prefer(other.model, self.model),
            api_key: prefer(other.api_key, self.api_key),
        }
    }
}

impl OptionsView {
    /// `self` as the base and `other` as the override. `Whatever` leaves the
    /// other side as it is.
    pub open spec fn merge(self, other: Self) -> Self {
        match (self, other) {
            (OptionsView::OpenAI(base), OptionsView::OpenAI(over)) => OptionsView::OpenAI(
                base.merge(over),
            ),
            (_, OptionsView::Whatever) => self,
            (OptionsView::Whatever, _) => other,
        }
    }
}

/// Options of one call or of one model, tagged by provider.
#[derive(Clone, Debug)]
pub enum ModelOptions {
    OpenAI(OpenAIModelOptions),
    Whatever,
}

/// Options for an OpenAI-shaped endpoint. Every field may be left unset.
#[derive(Clone, Debug)]
pub struct OpenAIModelOptions {
    pub base_url: Option<String>,
    pub model: Option<String>,
    pub api_key: Option<String>,
}

/// Options that borrow their texts, as a merge hands them out.
pub enum BorrowedModelOptions<'a> {
    OpenAI(BorrowedOpenAIModelOptions<'a>),
    Whatever,
}

/// OpenAI-shaped options that borrow their texts.
pub struct BorrowedOpenAIModelOptions<'a> {
    pub model: Option<&'a str>,
    pub base_url: Option<&'a str>,
    pub api_key: Option<&'a str>,
}

impl View for OpenAIModelOptions {
    type V = OpenAIOptionsView;

    open spec fn view(&self) -> OpenAIOptionsView {
        OpenAIOptionsView {
            base_url: optional_text(self.base_url),
            model: optional_text(self.model),
            api_key: optional_text(self.api_key),
        }
    }
}

impl<'a> View for BorrowedOpenAIModelOptions<'a> {
    type V = OpenAIOptionsView;

    open spec fn view(&self) -> OpenAIOptionsView {
        OpenAIOptionsView {
            base_url: optional_str(self.base_url),
            model: optional_str(self.model),
            api_key: optional_str(self.api_key),
        }
    }
}

impl View for ModelOptions {
    type V = OptionsView;

    open spec fn view(&self) -> OptionsView {
        match self {
            ModelOptions::OpenAI(options) => OptionsView::OpenAI(options@),
            ModelOptions::Whatever => OptionsView::Whatever,
        }
    }
}

impl<'a> View for BorrowedModelOptions<'a> {
    type V = OptionsView;

    open spec fn view(&self) -> OptionsView {
        match self {
            BorrowedModelOptions::OpenAI(options) => OptionsView::OpenAI(options@),
            BorrowedModelOptions::Whatever => OptionsView::Whatever,
        }
    }
}

/// Borrows an optional text.
fn as_text<'a>(text: &'a Option<String>) -> (borrowed: Option<&'a str>)
    ensures
        optional_str(borrowed) == optional_text(*text),
{
    match text {
        Some(s) => Some(s.as_str()),
        None => None,
    }
}

/// The override where it is set, else the base.
fn pick<'a>(over: Option<&'a str>, base: Option<&'a str>) -> (chosen: Option<&'a str>)
    ensures
        chosen == prefer(over, base),
{
    match over {
        Some(_) => over,
        None => base,
    }
}

impl OpenAIModelOptions {
    pub fn new() -> (options: Self)
        ensures
            options@ == OpenAIOptionsView::unset(),
    {
        Self { base_url: None, model: None, api_key: None }
    }

    pub fn model(self, model: &str) -> (options: Self)
        ensures
            options@ == (OpenAIOptionsView { model: Some(model@), ..self@ }),
    {
        let mut options = self;
        options.model = Some(model.to_owned());
        options
    }

    pub fn base_url(self, base_url: &str) -> (options: Self)
        ensures
            options@ == (OpenAIOptionsView { base_url: Some(base_url@), ..self@ }),
    {
        let mut options = self;
        options.base_url = Some(base_url.to_owned());
        options
    }

    pub fn api_key(self, api_key: &str) -> (options: Self)
        ensures
            options@ == (OpenAIOptionsView { api_key: Some(api_key@), ..self@ }),
    {
        let mut options = self;
        options.api_key = Some(api_key.to_owned());
        options
    }

    pub fn borrow(&self) -> (borrowed: BorrowedOpenAIModelOptions<'_>)
        ensures
            borrowed@ == self@,
    {
        BorrowedOpenAIModelOptions {
            model: as_text(&self.model),
            base_url: as_text(&self.base_url),
            api_key: as_text(&self.api_key),
        }
    }

    /// The effective options of a call: each field from `other`, the
    /// override, where it is set, else from `self`, the base.
    pub fn merge<'a>(&'a self, other: &'a Self) -> (effective: BorrowedOpenAIModelOptions<'a>)
        ensures
            effective@ == self@.merge(other@),
    {
        BorrowedOpenAIModelOptions {
            model: pick(as_text(&other.model), as_text(&self.model)),
            base_url: pick(as_text(&other.base_url), as_text(&self.base_url)),
            api_key: pick(as_text(&other.api_key), as_text(&self.api_key)),
        }
    }
}

impl ModelOptions {
    pub fn openai() -> (options: OpenAIModelOptions)
        ensures
            options@ == OpenAIOptionsView::unset(),
    {
        OpenAIModelOptions::new()
    }

    pub fn borrow(&self) -> (borrowed: BorrowedModelOptions<'_>)
        ensures
            borrowed@ == self@,
    {
        match self {
            ModelOptions::OpenAI(options) => BorrowedModelOptions::OpenAI(options.borrow()),
            ModelOptions::Whatever => BorrowedModelOptions::Whatever,
        }
    }

    /// The effective options of a call, with `self` as the model's defaults
    /// and `other` as the call's overrides.
    pub fn merge<'a>(&'a self, other: &'a Self) -> (effective: BorrowedModelOptions<'a>)
        ensures
            effective@ == self@.merge(other@),
    {
        match (self, other) {
            (ModelOptions::OpenAI(options), ModelOptions::OpenAI(other_options)) => {
                BorrowedModelOptions::OpenAI(options.merge(other_options))
            },
            (_, ModelOptions::Whatever) => self.borrow(),
            (ModelOptions::Whatever, _) => other.borrow(),
        }
    }
}

impl<'a> BorrowedModelOptions<'a> {
    /// The OpenAI-shaped options, where these are of that provider.
    pub fn into_openai(self) -> (options: Option<BorrowedOpenAIModelOptions<'a>>)
        ensures
            match self {
                BorrowedModelOptions::OpenAI(inner) => options == Some(inner),
                BorrowedModelOptions::Whatever => options is None,
            },
    {
        match self {
            BorrowedModelOptions::OpenAI(inner) => Some(inner),
            BorrowedModelOptions::Whatever => None,
        }
    }
}

impl Default for ModelOptions {
    fn default() -> (options: Self)
        ensures
            options == ModelOptions::Whatever,
    {
        ModelOptions::Whatever
    }
}

impl From<OpenAIModelOptions> for ModelOptions {
    fn from(options: OpenAIModelOptions) -> (wrapped: Self) {
        ModelOptions::OpenAI(options)
    }
}

impl vstd::std_specs::convert::FromSpecImpl<OpenAIModelOptions> for ModelOptions {
    open spec fn obeys_from_spec() -> bool {
        true
    }

    open spec fn from_spec(options: OpenAIModelOptions) -> Self {
        ModelOptions::OpenAI(options)
    }
}

impl<'a> From<BorrowedOpenAIModelOptions<'a>> for BorrowedModelOptions<'a> {
    fn from(options: BorrowedOpenAIModelOptions<'a>) -> (wrapped: Self) {
        BorrowedModelOptions::OpenAI(options)
    }
}

impl<'a> vstd::std_specs::convert::FromSpecImpl<BorrowedOpenAIModelOptions<'a>> for BorrowedModelOptions<'a> {
    open spec fn obeys_from_spec() -> bool {
        true
    }

    open spec fn from_spec(options: BorrowedOpenAIModelOptions<'a>) -> Self {
        BorrowedModelOptions::OpenAI(options)
    }
}

/// A field set in the override wins; a field unset there keeps the base's
/// value.
pub proof fn lemma_merge_left_biased(base: OpenAIOptionsView, over: OpenAIOptionsView)
    ensures
        over.base_url is Some ==> base.merge(over).base_url == over.base_url,
        over.base_url is None ==> base.merge(over).base_url == base.base_url,
        over.model is Some ==> base.merge(over).model == over.model,
        over.model is None ==> base.merge(over).model == base.model,
        over.api_key is Some ==> base.merge(over).api_key == over.api_key,
        over.api_key is None ==> base.merge(over).api_key == base.api_key,
{
}

/// Merging the same override in a second time changes nothing.
pub proof fn lemma_merge_idempotent(base: OptionsView, over: OptionsView)
    ensures
        base.merge(over).merge(over) == base.merge(over),
{
}

/// Merging a chain of overrides gives the same whichever pair is merged
/// first.
pub proof fn lemma_merge_associative(a: OptionsView, b: OptionsView, c: OptionsView)
    ensures
        a.merge(b).merge(c) == a.merge(b.merge(c)),
{
}

/// `Whatever` on either side leaves the other side as it is.
pub proof fn lemma_merge_whatever(options: OptionsView)
    ensures
        options.merge(OptionsView::Whatever) == options,
        OptionsView::Whatever.merge(options) == options,
{
}

} // verus!
