//! Template loading, rendering flags and the development build's template
//! watcher.

use vstd::prelude::*;

verus! {

/// The kind of a file-system event seen by the template watcher.
#[derive(PartialEq, Eq, Structural, Clone, Copy, Debug)]
pub enum TemplateEventKind {
    Any,
    Access,
    Create,
    Modify,
    Remove,
    Other,
}

/// How the development build watches its templates.
pub struct HotwatchSetup {
    /// The directory watched.
    pub directory: &'static str,
    /// How long events are gathered before they are reported, in nanoseconds.
    pub delay_nanos: u32,
    /// The kinds of events that change nothing.
    pub ignored: Vec<TemplateEventKind>,
}

/// Sets up the template watcher of development builds: it watches
/// `resources/templates`, reports changes after 0.3 seconds, and ignores the
/// unspecified kinds of events (`Any` and `Other`); every other event
/// reloads the templates and refreshes the browser (see `reloads_on`).
pub fn setup_hotwatch() -> (setup: HotwatchSetup)
    ensures
        setup.directory@ == "resources/templates"@,
        setup.delay_nanos == 300_000_000,
        setup.ignored@ == seq![TemplateEventKind::Any, TemplateEventKind::Other],
{
    let mut ignored: Vec<TemplateEventKind> = Vec::new();
    ignored.push(TemplateEventKind::Any);
    ignored.push(TemplateEventKind::Other);
    HotwatchSetup { directory: "resources/templates", delay_nanos: 300_000_000, ignored }
}

impl HotwatchSetup {
    /// Whether an event makes the templates reload and the browser refresh:
    /// every kind that is not ignored.
    pub fn reloads_on(&self, kind: TemplateEventKind) -> (reload: bool)
        ensures
            reload == !self.ignored@.contains(kind),
    {
        let n: usize = self.ignored.len();
        let mut i: usize = 0;
        while i < n
            invariant
                n == self.ignored@.len(),
                i <= n,
                forall|j: int| 0 <= j < i ==> self.ignored@[j] != kind,
            decreases n - i,
        {
            if self.ignored[i] == kind {
                assert(self.ignored@[i as int] == kind);
                return false;
            }
            i = i + 1;
        }
        true
    }
}

/// The glob the templates are loaded from: the sources in development
/// builds, the built copies otherwise.
pub fn template_glob(dev: bool) -> (glob: &'static str)
    ensures
        dev ==> glob@ == "resources/templates**/*.html"@,
        !dev ==> glob@ == "dist/templates**/*.html"@,
{
    if dev {
        "resources/templates**/*.html"
    } else {
        "dist/templates**/*.html"
    }
}

/// The context entry every template is rendered with: whether this is a
/// development build.
pub fn render_flag(dev: bool) -> (entry: (&'static str, bool))
    ensures
        entry.0@ == "env_is_dev"@,
        entry.1 == dev,
{
    ("env_is_dev", dev)
}

#[verifier::external_type_specification]
#[verifier::external_body]
pub struct ExTeraContext(tera::Context);

#[verifier::external_type_specification]
#[verifier::external_body]
pub struct ExTeraError(tera::Error);

#[verifier::external_type_specification]
#[verifier::external_body]
pub struct ExJsonValue(serde_json::Value);

#[verifier::external_type_specification]
#[verifier::external_body]
pub struct ExJsonError(serde_json::Error);

/// The keys a template context holds.
pub uninterp spec fn context_keys(context: tera::Context) -> Set<Seq<char>>;

/// The boolean a template context holds under a key, if the entry there is a
/// JSON boolean.
pub uninterp spec fn context_bool(context: tera::Context, key: Seq<char>) -> Option<bool>;

/// `out` is what `tera::Context::from_value` gives for `value`.
pub uninterp spec fn context_from_json(
    value: serde_json::Value,
    out: Result<tera::Context, tera::Error>,
) -> bool;

/// `tera::Context::from_value`: the fields of a JSON object as a context;
/// an error for any other JSON value. The claim is only that the result is
/// the one for this value: the JSON value is opaque here, so which values
/// are objects is not stated.
#[verifier::external_body]
fn context_from_value(value: serde_json::Value) -> (r: Result<tera::Context, tera::Error>)
    ensures
        context_from_json(value, r),
{
    tera::Context::from_value(value)
}

/// `tera::Context::new`: a context with no entries.
#[verifier::external_body]
fn context_new() -> (context: tera::Context)
    ensures
        context_keys(context) == Set::<Seq<char>>::empty(),
        forall|k: Seq<char>| #[trigger] context_bool(context, k) is None,
{
    tera::Context::new()
}

/// `tera::Context::insert` of a boolean: the entry under `key` becomes the
/// JSON boolean `value`, replacing any earlier entry; the other entries stay.
#[verifier::external_body]
fn context_insert_bool(context: &mut tera::Context, key: &str, value: bool)
    ensures
        context_keys(*final(context)) == context_keys(*old(context)).insert(key@),
        context_bool(*final(context), key@) == Some(value),
        forall|k: Seq<char>|
            k != key@ ==> #[trigger] context_bool(*final(context), k) == context_bool(
                *old(context),
                k,
            ),
{
    context.insert(key, &value);
}

/// Why a page could not be rendered.
pub enum RenderError {
    /// The template engine failed.
    Tera(tera::Error),
    /// The page's data could not be turned into JSON.
    Serde(serde_json::Error),
}

/// `after` is `before` with the `env_is_dev` entry set to `dev`, any
/// earlier entry there replaced, the other keys and booleans kept.
pub open spec fn has_dev_flag(before: tera::Context, after: tera::Context, dev: bool) -> bool {
    &&& context_keys(after) == context_keys(before).insert("env_is_dev"@)
    &&& context_bool(after, "env_is_dev"@) == Some(dev)
    &&& forall|k: Seq<char>|
        k != "env_is_dev"@ ==> #[trigger] context_bool(after, k) == context_bool(before, k)
}

/// `context` is the context of a page whose data gave `from_value`: that
/// context, or one with no entries when the data was not a JSON object.
pub open spec fn is_page_context(
    from_value: Result<tera::Context, tera::Error>,
    context: tera::Context,
) -> bool {
    &&& from_value is Ok ==> context == from_value->Ok_0
    &&& from_value is Err ==> context_keys(context) == Set::<Seq<char>>::empty() && forall|
        k: Seq<char>,
    | #[trigger] context_bool(context, k) is None
}

/// A render's outcome as a page.
pub open spec fn page_outcome(rendered: Result<String, tera::Error>) -> Result<String, RenderError> {
    match rendered {
        Ok(html) => Ok(html),
        Err(e) => Err(RenderError::Tera(e)),
    }
}

/// `out` is what `render` gave for the template `path` and a context made
/// from `context` by adding the development flag.
pub open spec fn rendered_with_flag<F: Fn(&str, &tera::Context) -> Result<String, tera::Error>>(
    render: F,
    path: &str,
    context: tera::Context,
    dev: bool,
    flagged: tera::Context,
    out: Result<String, tera::Error>,
) -> bool {
    &&& has_dev_flag(context, flagged, dev)
    &&& call_ensures(render, (path, &flagged), out)
}

/// The context a template is rendered with: the given one with the
/// `env_is_dev` entry set to whether this is a development build, any
/// earlier entry there replaced, every other entry kept.
pub fn with_dev_flag(context: tera::Context, dev: bool) -> (c: tera::Context)
    ensures
        has_dev_flag(context, c, dev),
{
    let mut c = context;
    let (key, value) = render_flag(dev);
    context_insert_bool(&mut c, key, value);
    c
}

/// The context of a page: the one made from its JSON data, or an empty one
/// when the data was not a JSON object.
pub fn page_context(from_value: Result<tera::Context, tera::Error>) -> (c: tera::Context)
    ensures
        is_page_context(from_value, c),
{
    match from_value {
        Ok(context) => context,
        Err(_) => context_new(),
    }
}

/// The outcome of a render as a page: the HTML, or the template engine's
/// error.
pub fn finish_render(rendered: Result<String, tera::Error>) -> (r: Result<String, RenderError>)
    ensures
        r == page_outcome(rendered),
{
    match rendered {
        Ok(html) => Ok(html),
        Err(e) => Err(RenderError::Tera(e)),
    }
}

/// Renders the template `path` with `render` (the template engine's render
/// of a named template), handing it the given context with the development
/// flag added; the outcome is `render`'s.
pub fn render_internal<F: Fn(&str, &tera::Context) -> Result<String, tera::Error>>(
    render: F,
    path: &str,
    context: tera::Context,
    dev: bool,
) -> (r: Result<String, tera::Error>)
    requires
        forall|c: tera::Context| call_requires(render, (path, &c)),
    ensures
        exists|flagged: tera::Context| #[trigger]
            rendered_with_flag(render, path, context, dev, flagged, r),
{
    let ghost before = context;
    let flagged = with_dev_flag(context, dev);
    let r = render(path, &flagged);
    assert(rendered_with_flag(render, path, before, dev, flagged, r));
    r
}

/// Renders a page from its data turned into JSON: data that could not be
/// turned into JSON is reported as such, and only then; otherwise the
/// template `path` is rendered with the page's context (the data's fields,
/// or none when the data is not a JSON object) and the development flag,
/// and the render's outcome is the page's.
pub fn render_page<F: Fn(&str, &tera::Context) -> Result<String, tera::Error>>(
    render: F,
    path: &str,
    data: Result<serde_json::Value, serde_json::Error>,
    dev: bool,
) -> (r: Result<String, RenderError>)
    requires
        forall|c: tera::Context| call_requires(render, (path, &c)),
    ensures
        data is Err ==> r == Err::<String, RenderError>(RenderError::Serde(data->Err_0)),
        data is Ok ==> exists|
            from_value: Result<tera::Context, tera::Error>,
            context: tera::Context,
            flagged: tera::Context,
            out: Result<String, tera::Error>,
        |
            #![trigger context_from_json(data->Ok_0, from_value), rendered_with_flag(render, path, context, dev, flagged, out)]
            {
                &&& context_from_json(data->Ok_0, from_value)
                &&& is_page_context(from_value, context)
                &&& rendered_with_flag(render, path, context, dev, flagged, out)
                &&& r == page_outcome(out)
            },
{
    match data {
        Err(e) => Err(RenderError::Serde(e)),
        Ok(value) => {
            let ghost v = value;
            let from_value = context_from_value(value);
            let ghost fv = from_value;
            let context = page_context(from_value);
            let ghost ctx = context;
            let out = render_internal(render, path, context, dev);
            let ghost flagged = choose|flagged: tera::Context|
                rendered_with_flag(render, path, ctx, dev, flagged, out);
            let r = finish_render(out);
            assert(context_from_json(v, fv));
            assert(rendered_with_flag(render, path, ctx, dev, flagged, out));
            r
        },
    }
}

/// What the live-reload socket has just seen.
#[derive(PartialEq, Eq, Structural, Clone, Copy, Debug)]
pub enum DevSocketEvent {
    /// The templates changed.
    TemplatesChanged,
    /// The template watcher is gone.
    WatcherClosed,
    /// A reload message reached the browser.
    Sent,
    /// A reload message could not be sent.
    SendFailed,
}

/// What the live-reload socket does next.
#[derive(PartialEq, Eq, Structural, Clone, Copy, Debug)]
pub enum DevSocketAction {
    /// Send the browser an (empty) reload message.
    SendReload,
    /// Wait for the next change of the templates.
    WaitForChange,
    /// Close the socket.
    Close,
}

/// The live-reload socket: every change of the templates is passed on to the
/// browser; the socket closes when the watcher is gone or the browser cannot
/// be reached.
pub fn dev_socket_next(event: DevSocketEvent) -> (action: DevSocketAction)
    ensures
        event == DevSocketEvent::TemplatesChanged ==> action == DevSocketAction::SendReload,
        event == DevSocketEvent::Sent ==> action == DevSocketAction::WaitForChange,
        event == DevSocketEvent::WatcherClosed ==> action == DevSocketAction::Close,
        event == DevSocketEvent::SendFailed ==> action == DevSocketAction::Close,
{
    match event {
        DevSocketEvent::TemplatesChanged => DevSocketAction::SendReload,
        DevSocketEvent::Sent => DevSocketAction::WaitForChange,
        DevSocketEvent::WatcherClosed => DevSocketAction::Close,
        DevSocketEvent::SendFailed => DevSocketAction::Close,
    }
}

} // verus!
