//! Function metadata and its renderings: human-readable text and JSON.

use crate::json::{json_text, lemma_array_view, lemma_object_view, Json, JsonV};
use crate::requirements::{opt_text, opt_text_eq, Requirements, Resource};
use crate::strmap::{at_positions, inserted, sorted_entries, text_eq, StrMap};
use vstd::prelude::*;

verus! {

/// An HTTP route a function serves.
#[derive(Debug, Clone)]
pub struct RouteInfo {
    /// HTTP method ("GET", "POST", ...).
    pub method: String,
    /// Path pattern.
    pub path: String,
    /// What the route does.
    pub description: Option<String>,
}

impl PartialEq for RouteInfo {
    fn eq(&self, other: &RouteInfo) -> (r: bool)
        ensures
            r == (self.method@ == other.method@ && self.path@ == other.path@ && opt_text(
                self.description,
            ) == opt_text(other.description)),
    {
        text_eq(self.method.as_str(), other.method.as_str()) && text_eq(
            self.path.as_str(),
            other.path.as_str(),
        ) && opt_text_eq(&self.description, &other.description)
    }
}

impl vstd::std_specs::cmp::PartialEqSpecImpl for RouteInfo {
    open spec fn obeys_eq_spec() -> bool {
        true
    }

    open spec fn eq_spec(&self, other: &RouteInfo) -> bool {
        self.method@ == other.method@ && self.path@ == other.path@ && opt_text(self.description)
            == opt_text(other.description)
    }
}

impl RouteInfo {
    /// A route without description.
    pub fn new(method: &str, path: &str) -> (r: RouteInfo)
        ensures
            r.method@ == method@,
            r.path@ == path@,
            r.description is None,
    {
        RouteInfo { method: method.to_owned(), path: path.to_owned(), description: None }
    }

    /// The same route with the given description.
    pub fn with_description(self, description: &str) -> (r: RouteInfo)
        ensures
            r.method == self.method,
            r.path == self.path,
            crate::requirements::holds_text(r.description, description@),
    {
        RouteInfo { description: Some(description.to_owned()), ..self }
    }
}

/// Metadata describing a function: name, description, resource needs,
/// routes and free-form key/value pairs.
#[derive(Debug, Clone)]
pub struct FunctionInfo {
    /// Function name.
    pub name: String,
    /// Function description.
    pub description: Option<String>,
    /// Resource requirements and recommendations.
    pub resources: Requirements,
    /// HTTP routes the function serves.
    pub routes: Vec<RouteInfo>,
    /// Additional key/value metadata.
    pub metadata: StrMap<String>,
}

impl FunctionInfo {
    /// Each map of the metadata holds a key once; the builders keep this.
    pub open spec fn wf(&self) -> bool {
        self.resources.wf() && self.metadata.wf()
    }

    /// Metadata with a name and nothing else.
    pub fn new(name: &str) -> (r: FunctionInfo)
        ensures
            r.name@ == name@,
            r.description is None,
            r.resources.recommended@.len() == 0,
            r.resources.required@.len() == 0,
            r.resources.platforms@.len() == 0,
            r.resources.environment@.len() == 0,
            r.routes@.len() == 0,
            r.metadata@.len() == 0,
            r.wf(),
    {
        FunctionInfo {
            name: name.to_owned(),
            description: None,
            resources: Requirements::new(),
            routes: Vec::new(),
            metadata: StrMap::new(),
        }
    }

    /// The same metadata with the given description.
    pub fn with_description(self, description: &str) -> (r: FunctionInfo)
        ensures
            crate::requirements::holds_text(r.description, description@),
            r.name == self.name,
            r.resources == self.resources,
            r.routes == self.routes,
            r.metadata == self.metadata,
    {
        FunctionInfo { description: Some(description.to_owned()), ..self }
    }

    /// The same metadata with the given requirements.
    pub fn with_resources(self, resources: Requirements) -> (r: FunctionInfo)
        ensures
            r.resources == resources,
            r.name == self.name,
            r.description == self.description,
            r.routes == self.routes,
            r.metadata == self.metadata,
    {
        FunctionInfo { resources, ..self }
    }

    /// The same metadata with one more route, last.
    pub fn add_route(self, route: RouteInfo) -> (r: FunctionInfo)
        ensures
            r.routes@ == self.routes@.push(route),
            r.name == self.name,
            r.description == self.description,
            r.resources == self.resources,
            r.metadata == self.metadata,
    {
        let mut r = self;
        r.routes.push(route);
        r
    }

    /// The same metadata with `key` set to `value`.
    pub fn add_metadata(self, key: &str, value: &str) -> (r: FunctionInfo)
        ensures
            exists|k: String, v: String|
                k@ == key@ && v@ == value@ && r.metadata@ == inserted(self.metadata@, k, v),
            self.metadata.wf() ==> r.metadata.wf(),
            r.name == self.name,
            r.description == self.description,
            r.resources == self.resources,
            r.routes == self.routes,
    {
        let mut r = self;
        let k = key.to_owned();
        let v = value.to_owned();
        r.metadata.insert(k, v);
        r
    }

    /// The metadata a function declaration gives: its name; its description,
    /// by default "Serverless function NAME"; the declared requirements, or
    /// else requirements listing only `platforms`; the declared route, if any.
    pub fn declared(
        name: &str,
        description: Option<&str>,
        platforms: &Vec<String>,
        requirements: Option<Requirements>,
        route: Option<RouteInfo>,
    ) -> (r: FunctionInfo)
        ensures
            r.name@ == name@,
            match description {
                Some(d) => crate::requirements::holds_text(r.description, d@),
                None => crate::requirements::holds_text(
                    r.description,
                    "Serverless function "@ + name@,
                ),
            },
            match requirements {
                Some(q) => r.resources == q,
                None => r.resources.recommended@.len() == 0 && r.resources.required@.len() == 0
                    && crate::json::texts(r.resources.platforms@) == crate::json::texts(platforms@)
                    && r.resources.environment@.len() == 0,
            },
            match route {
                Some(x) => r.routes@ == seq![x],
                None => r.routes@.len() == 0,
            },
            r.metadata@.len() == 0,
            requirements matches Some(q) ==> (q.wf() ==> r.wf()),
            requirements is None ==> r.wf(),
    {
        let info = match description {
            Some(d) => FunctionInfo::new(name).with_description(d),
            None => {
                let mut d = "Serverless function ".to_owned();
                d.append(name);
                FunctionInfo::new(name).with_description(d.as_str())
            },
        };
        let resources = match requirements {
            Some(q) => q,
            None => {
                let mut q = Requirements::new();
                let mut i: usize = 0;
                while i < platforms.len()
                    invariant
                        i <= platforms@.len(),
                        q.recommended@.len() == 0,
                        q.required@.len() == 0,
                        q.environment@.len() == 0,
                        q.wf(),
                        q.platforms@.len() == i,
                        forall|j: int| 0 <= j < i ==> #[trigger] q.platforms@[j]@ == platforms@[j]@,
                    decreases platforms.len() - i,
                {
                    let ghost before = q.platforms@;
                    q = q.platform(platforms[i].as_str());
                    proof {
                        assert forall|j: int| 0 <= j < i + 1 implies #[trigger] q.platforms@[j]@
                            == platforms@[j]@ by {
                            if j < i {
                                assert(q.platforms@[j] == q.platforms@.drop_last()[j]);
                            }
                        }
                    }
                    i = i + 1;
                }
                assert(crate::json::texts(q.platforms@) =~= crate::json::texts(platforms@));
                q
            },
        };
        let info = info.with_resources(resources);
        match route {
            Some(x) => {
                let r = info.add_route(x);
                assert(r.routes@ =~= seq![x]);
                r
            },
            None => info,
        }
    }

    /// Human-readable rendering of the metadata.
    pub fn format_for_display(&self) -> (r: String)
        ensures
            r@ == display_text(*self),
    {
        let mut out = String::new();
        push_head(&mut out, self);
        push_resources(&mut out, &self.resources);
        if self.metadata.len() > 0 {
            out.append("\n## Additional Metadata\n");
            push_pair_lines(&mut out, &self.metadata);
        }
        proof {
            assert(out@ =~= display_text(*self));
        }
        out
    }
}

/// "  Description: d\n" for a description `d`; nothing without one.
pub open spec fn description_line(d: Option<String>) -> Seq<char> {
    match d {
        Some(t) => "  Description: "@ + t@ + "\n"@,
        None => Seq::empty(),
    }
}

/// One line per route, "- METHOD path", each followed by its description line.
pub open spec fn route_lines(s: Seq<RouteInfo>) -> Seq<char>
    decreases s.len(),
{
    if s.len() == 0 {
        Seq::empty()
    } else {
        route_lines(s.drop_last()) + "- "@ + s.last().method@ + " "@ + s.last().path@ + "\n"@
            + description_line(s.last().description)
    }
}

/// One line per resource, "- name: value", each followed by its description line.
pub open spec fn resource_lines(s: Seq<(String, Resource)>) -> Seq<char>
    decreases s.len(),
{
    if s.len() == 0 {
        Seq::empty()
    } else {
        resource_lines(s.drop_last()) + "- "@ + s.last().0@ + ": "@ + s.last().1.value@ + "\n"@
            + description_line(s.last().1.description)
    }
}

/// One line per item, "- item".
pub open spec fn bullet_lines(s: Seq<String>) -> Seq<char>
    decreases s.len(),
{
    if s.len() == 0 {
        Seq::empty()
    } else {
        bullet_lines(s.drop_last()) + "- "@ + s.last()@ + "\n"@
    }
}

/// One line per pair, "- key: value".
pub open spec fn pair_lines(s: Seq<(String, String)>) -> Seq<char>
    decreases s.len(),
{
    if s.len() == 0 {
        Seq::empty()
    } else {
        pair_lines(s.drop_last()) + "- "@ + s.last().0@ + ": "@ + s.last().1@ + "\n"@
    }
}

/// `body` under `heading` where `nonempty`; nothing otherwise.
pub open spec fn section(nonempty: bool, heading: Seq<char>, body: Seq<char>) -> Seq<char> {
    if nonempty {
        heading + body
    } else {
        Seq::empty()
    }
}

/// The human-readable rendering: name, description, routes, then the resource
/// sections, platforms, environment variables and additional metadata; a
/// section with no entries is left out. Map entries are listed by increasing
/// key, so the text does not depend on the order of insertion.
pub open spec fn display_text(info: FunctionInfo) -> Seq<char> {
    head_text(info) + resources_text(info.resources) + section(
        info.metadata@.len() > 0,
        "\n## Additional Metadata\n"@,
        pair_lines(sorted_entries(info.metadata@)),
    )
}

/// Name, description and routes.
pub open spec fn head_text(info: FunctionInfo) -> Seq<char> {
    "# Function: "@ + info.name@ + "\n"@ + match info.description {
        Some(d) => "\n## Description\n"@ + d@ + "\n"@,
        None => Seq::empty(),
    } + section(info.routes@.len() > 0, "\n## Routes\n"@, route_lines(info.routes@))
}

/// Whether the requirements have any entry at all.
pub open spec fn has_resource_entries(res: Requirements) -> bool {
    res.required@.len() > 0 || res.recommended@.len() > 0 || res.platforms@.len() > 0
        || res.environment@.len() > 0
}

/// The resource sections, platforms and environment variables, under a
/// "Resource Requirements" heading; nothing where there are no entries.
pub open spec fn resources_text(res: Requirements) -> Seq<char> {
    section(
        has_resource_entries(res),
        "\n## Resource Requirements\n"@,
        section(
            res.required@.len() > 0,
            "\n### Required Resources\n"@,
            resource_lines(sorted_entries(res.required@)),
        ) + section(
            res.recommended@.len() > 0,
            "\n### Recommended Resources\n"@,
            resource_lines(sorted_entries(res.recommended@)),
        ) + section(
            res.platforms@.len() > 0,
            "\n## Supported Platforms\n"@,
            bullet_lines(res.platforms@),
        ) + section(
            res.environment@.len() > 0,
            "\n## Environment Variables\n"@,
            bullet_lines(res.environment@),
        ),
    )
}

fn push_head(out: &mut String, info: &FunctionInfo)
    ensures
        final(out)@ == old(out)@ + head_text(*info),
{
    let ghost start = out@;
    out.append("# Function: ");
    out.append(info.name.as_str());
    out.append("\n");
    let ghost mid = out@;
    match &info.description {
        Some(d) => {
            out.append("\n## Description\n");
            out.append(d.as_str());
            out.append("\n");
        },
        None => {},
    }
    let ghost mid2 = out@;
    if info.routes.len() > 0 {
        out.append("\n## Routes\n");
        push_route_lines(out, &info.routes);
    }
    assert(out@ =~= start + head_text(*info));
}

fn push_resources(out: &mut String, res: &Requirements)
    ensures
        final(out)@ == old(out)@ + resources_text(*res),
{
    let ghost start = out@;
    if res.required.len() == 0 && res.recommended.len() == 0 && res.platforms.len() == 0
        && res.environment.len() == 0 {
        assert(out@ =~= start + resources_text(*res));
        return;
    }
    out.append("\n## Resource Requirements\n");
    push_resource_section(out, "\n### Required Resources\n", &res.required);
    push_resource_section(out, "\n### Recommended Resources\n", &res.recommended);
    push_bullet_section(out, "\n## Supported Platforms\n", &res.platforms);
    push_bullet_section(out, "\n## Environment Variables\n", &res.environment);
    assert(out@ =~= start + resources_text(*res));
}

fn push_resource_section(out: &mut String, heading: &str, m: &StrMap<Resource>)
    ensures
        final(out)@ == old(out)@ + section(m@.len() > 0, heading@, resource_lines(sorted_entries(m@))),
{
    if m.len() > 0 {
        out.append(heading);
        push_resource_lines(out, m);
        assert(out@ =~= old(out)@ + section(m@.len() > 0, heading@, resource_lines(sorted_entries(m@))));
    } else {
        assert(out@ =~= old(out)@ + section(m@.len() > 0, heading@, resource_lines(sorted_entries(m@))));
    }
}

fn push_bullet_section(out: &mut String, heading: &str, items: &Vec<String>)
    ensures
        final(out)@ == old(out)@ + section(items@.len() > 0, heading@, bullet_lines(items@)),
{
    if items.len() > 0 {
        out.append(heading);
        push_bullet_lines(out, items);
        assert(out@ =~= old(out)@ + section(items@.len() > 0, heading@, bullet_lines(items@)));
    } else {
        assert(out@ =~= old(out)@ + section(items@.len() > 0, heading@, bullet_lines(items@)));
    }
}

fn push_description_line(out: &mut String, d: &Option<String>)
    ensures
        final(out)@ == old(out)@ + description_line(*d),
{
    match d {
        Some(t) => {
            out.append("  Description: ");
            out.append(t.as_str());
            out.append("\n");
        },
        None => {
            assert(old(out)@ + description_line(*d) =~= old(out)@);
        },
    }
}

fn push_route_lines(out: &mut String, routes: &Vec<RouteInfo>)
    ensures
        final(out)@ == old(out)@ + route_lines(routes@),
{
    let ghost start = out@;
    let mut i: usize = 0;
    assert(routes@.subrange(0, 0) =~= Seq::<RouteInfo>::empty());
    assert(start + route_lines(routes@.subrange(0, 0)) =~= start);
    while i < routes.len()
        invariant
            i <= routes@.len(),
            out@ == start + route_lines(routes@.subrange(0, i as int)),
        decreases routes.len() - i,
    {
        let r = &routes[i];
        out.append("- ");
        out.append(r.method.as_str());
        out.append(" ");
        out.append(r.path.as_str());
        out.append("\n");
        push_description_line(out, &r.description);
        proof {
            let s = routes@.subrange(0, i + 1);
            assert(s.drop_last() =~= routes@.subrange(0, i as int));
            assert(out@ =~= start + route_lines(s));
        }
        i = i + 1;
    }
    assert(routes@.subrange(0, routes@.len() as int) =~= routes@);
}

fn push_resource_lines(out: &mut String, m: &StrMap<Resource>)
    ensures
        final(out)@ == old(out)@ + resource_lines(sorted_entries(m@)),
{
    let pos = m.sorted_positions();
    let ghost es = at_positions(m@, pos@);
    let ghost start = out@;
    let mut i: usize = 0;
    assert(es.subrange(0, 0) =~= Seq::<(String, Resource)>::empty());
    assert(start + resource_lines(es.subrange(0, 0)) =~= start);
    while i < pos.len()
        invariant
            i <= pos@.len(),
            es == at_positions(m@, pos@),
            forall|q: int| 0 <= q < pos@.len() ==> #[trigger] pos@[q] < m@.len(),
            out@ == start + resource_lines(es.subrange(0, i as int)),
        decreases pos.len() - i,
    {
        let k = m.key_at(pos[i]);
        let r = m.value_at(pos[i]);
        out.append("- ");
        out.append(k.as_str());
        out.append(": ");
        out.append(r.value.as_str());
        out.append("\n");
        push_description_line(out, &r.description);
        proof {
            let t = es.subrange(0, i + 1);
            assert(t.drop_last() =~= es.subrange(0, i as int));
            assert(out@ =~= start + resource_lines(t));
        }
        i = i + 1;
    }
    assert(es.subrange(0, es.len() as int) =~= es);
}

fn push_bullet_lines(out: &mut String, items: &Vec<String>)
    ensures
        final(out)@ == old(out)@ + bullet_lines(items@),
{
    let ghost start = out@;
    let mut i: usize = 0;
    assert(items@.subrange(0, 0) =~= Seq::<String>::empty());
    assert(start + bullet_lines(items@.subrange(0, 0)) =~= start);
    while i < items.len()
        invariant
            i <= items@.len(),
            out@ == start + bullet_lines(items@.subrange(0, i as int)),
        decreases items.len() - i,
    {
        out.append("- ");
        out.append(items[i].as_str());
        out.append("\n");
        proof {
            let s = items@.subrange(0, i + 1);
            assert(s.drop_last() =~= items@.subrange(0, i as int));
            assert(out@ =~= start + bullet_lines(s));
        }
        i = i + 1;
    }
    assert(items@.subrange(0, items@.len() as int) =~= items@);
}

fn push_pair_lines(out: &mut String, m: &StrMap<String>)
    ensures
        final(out)@ == old(out)@ + pair_lines(sorted_entries(m@)),
{
    let pos = m.sorted_positions();
    let ghost es = at_positions(m@, pos@);
    let ghost start = out@;
    let mut i: usize = 0;
    assert(es.subrange(0, 0) =~= Seq::<(String, String)>::empty());
    assert(start + pair_lines(es.subrange(0, 0)) =~= start);
    while i < pos.len()
        invariant
            i <= pos@.len(),
            es == at_positions(m@, pos@),
            forall|q: int| 0 <= q < pos@.len() ==> #[trigger] pos@[q] < m@.len(),
            out@ == start + pair_lines(es.subrange(0, i as int)),
        decreases pos.len() - i,
    {
        out.append("- ");
        out.append(m.key_at(pos[i]).as_str());
        out.append(": ");
        out.append(m.value_at(pos[i]).as_str());
        out.append("\n");
        proof {
            let t = es.subrange(0, i + 1);
            assert(t.drop_last() =~= es.subrange(0, i as int));
            assert(out@ =~= start + pair_lines(t));
        }
        i = i + 1;
    }
    assert(es.subrange(0, es.len() as int) =~= es);
}

/// How introspection output is rendered.
#[derive(Debug, Clone, Copy, PartialEq, Eq, Structural)]
pub enum OutputFormat {
    /// The metadata's JSON encoding.
    Json,
    /// The human-readable text of [`FunctionInfo::format_for_display`].
    Text,
}

/// The two introspection switches, read once from the command line.
#[derive(Debug, Clone, Copy, PartialEq, Eq, Structural)]
pub struct InfoFlags {
    /// Render metadata instead of running the handler (`--info`).
    pub info_requested: bool,
    /// Render it as JSON (`--json`).
    pub format: OutputFormat,
}

/// Whether `args` holds the argument `flag` exactly.
pub open spec fn has_arg(args: Seq<String>, flag: Seq<char>) -> bool {
    exists|i: int| 0 <= i < args.len() && args[i]@ == flag
}

fn has_flag(args: &Vec<String>, flag: &str) -> (r: bool)
    ensures
        r == has_arg(args@, flag@),
{
    let mut i: usize = 0;
    while i < args.len()
        invariant
            i <= args@.len(),
            forall|j: int| 0 <= j < i ==> args@[j]@ != flag@,
        decreases args.len() - i,
    {
        if text_eq(args[i].as_str(), flag) {
            return true;
        }
        i = i + 1;
    }
    false
}

/// Whether the command line `args` asks for introspection (`--info`).
pub fn check_info_flag(args: &Vec<String>) -> (r: bool)
    ensures
        r == has_arg(args@, "--info"@),
{
    has_flag(args, "--info")
}

/// Whether `--info` is present, and the output format (`Json` where `--json`
/// is present, else `Text`).
pub fn parse_info_args(args: &Vec<String>) -> (r: (bool, OutputFormat))
    ensures
        r.0 == has_arg(args@, "--info"@),
        r.1 == (if has_arg(args@, "--json"@) {
            OutputFormat::Json
        } else {
            OutputFormat::Text
        }),
{
    let info = check_info_flag(args);
    let format = if has_flag(args, "--json") {
        OutputFormat::Json
    } else {
        OutputFormat::Text
    };
    (info, format)
}

impl InfoFlags {
    /// The switches as the command line `args` sets them.
    pub fn from_args(args: &Vec<String>) -> (r: InfoFlags)
        ensures
            r.info_requested == has_arg(args@, "--info"@),
            r.format == (if has_arg(args@, "--json"@) {
                OutputFormat::Json
            } else {
                OutputFormat::Text
            }),
    {
        let (info_requested, format) = parse_info_args(args);
        InfoFlags { info_requested, format }
    }
}

/// The metadata rendered in `format`.
pub open spec fn rendered(info: FunctionInfo, format: OutputFormat) -> Seq<char> {
    match format {
        OutputFormat::Json => json_text(info_json(info)),
        OutputFormat::Text => display_text(info),
    }
}

/// The rendering of `info` that the command line `args` asks for, if it asks
/// for introspection.
pub fn handle_info_request(info: &FunctionInfo, args: &Vec<String>) -> (r: Option<String>)
    ensures
        has_arg(args@, "--info"@) ==> (r matches Some(t) && t@ == rendered(
            *info,
            if has_arg(args@, "--json"@) {
                OutputFormat::Json
            } else {
                OutputFormat::Text
            },
        )),
        !has_arg(args@, "--info"@) ==> r is None,
{
    let (info_requested, format) = parse_info_args(args);
    if info_requested {
        Some(info.render(format))
    } else {
        None
    }
}

/// A JSON string holding the text of `s`.
pub open spec fn str_v(s: String) -> JsonV {
    JsonV::Str(s@)
}

/// `keys` and `vals`, with `key: val` added last where `val` is present.
pub open spec fn with_optional(
    keys: Seq<Seq<char>>,
    vals: Seq<JsonV>,
    key: Seq<char>,
    val: Option<JsonV>,
) -> (Seq<Seq<char>>, Seq<JsonV>) {
    match val {
        Some(v) => (keys.push(key), vals.push(v)),
        None => (keys, vals),
    }
}

/// The JSON encoding of a resource: `name`, `value`, and `description` where present.
pub open spec fn resource_json(r: Resource) -> JsonV {
    let (ks, vs) = with_optional(
        seq!["name"@, "value"@],
        seq![str_v(r.name), str_v(r.value)],
        "description"@,
        match r.description {
            Some(d) => Some(str_v(d)),
            None => None,
        },
    );
    JsonV::Object(ks, vs)
}

/// The JSON encoding of a name-to-resource map: an object in entry order.
pub open spec fn resource_map_json(s: Seq<(String, Resource)>) -> JsonV {
    JsonV::Object(Seq::new(s.len(), |i: int| s[i].0@), Seq::new(s.len(), |i: int| resource_json(s[i].1)))
}

/// The JSON encoding of a list of strings: an array of strings.
pub open spec fn string_list_json(s: Seq<String>) -> JsonV {
    JsonV::Array(Seq::new(s.len(), |i: int| str_v(s[i])))
}

/// The JSON encoding of a string-to-string map: an object of strings.
pub open spec fn string_map_json(s: Seq<(String, String)>) -> JsonV {
    JsonV::Object(Seq::new(s.len(), |i: int| s[i].0@), Seq::new(s.len(), |i: int| str_v(s[i].1)))
}

/// The JSON encoding of requirements: `recommended`, `required`, `platforms`,
/// `environment`.
pub open spec fn requirements_json(r: Requirements) -> JsonV {
    JsonV::Object(
        seq!["recommended"@, "required"@, "platforms"@, "environment"@],
        seq![
            resource_map_json(r.recommended@),
            resource_map_json(r.required@),
            string_list_json(r.platforms@),
            string_list_json(r.environment@),
        ],
    )
}

/// The JSON encoding of a route: `method`, `path`, and `description` where present.
pub open spec fn route_json(r: RouteInfo) -> JsonV {
    let (ks, vs) = with_optional(
        seq!["method"@, "path"@],
        seq![str_v(r.method), str_v(r.path)],
        "description"@,
        match r.description {
            Some(d) => Some(str_v(d)),
            None => None,
        },
    );
    JsonV::Object(ks, vs)
}

/// The JSON encoding of metadata: `name`; `description` where present;
/// `resources`; `routes` where there are any; `metadata` where there is any.
pub open spec fn info_json(info: FunctionInfo) -> JsonV {
    let (k1, v1) = with_optional(
        seq!["name"@],
        seq![str_v(info.name)],
        "description"@,
        match info.description {
            Some(d) => Some(str_v(d)),
            None => None,
        },
    );
    let (k2, v2) = (k1.push("resources"@), v1.push(requirements_json(info.resources)));
    let (k3, v3) = with_optional(
        k2,
        v2,
        "routes"@,
        if info.routes@.len() > 0 {
            Some(JsonV::Array(Seq::new(info.routes@.len(), |i: int| route_json(info.routes@[i]))))
        } else {
            None
        },
    );
    let (k4, v4) = with_optional(
        k3,
        v3,
        "metadata"@,
        if info.metadata@.len() > 0 {
            Some(string_map_json(info.metadata@))
        } else {
            None
        },
    );
    JsonV::Object(k4, v4)
}

fn str_json(s: &String) -> (r: Json)
    ensures
        r@ == str_v(*s),
{
    Json::Str(s.clone())
}

fn push_member(v: &mut Vec<(String, Json)>, key: &str, value: Json)
    ensures
        final(v)@ == old(v)@.push((final(v)@.last().0, value)),
        final(v)@.last().0@ == key@,
{
    v.push((key.to_owned(), value));
}

/// Keys and value views of a member list.
pub open spec fn member_keys(v: Seq<(String, Json)>) -> Seq<Seq<char>> {
    Seq::new(v.len(), |i: int| v[i].0@)
}

pub open spec fn member_vals(v: Seq<(String, Json)>) -> Seq<JsonV> {
    Seq::new(v.len(), |i: int| v[i].1@)
}

proof fn lemma_object_is(v: Vec<(String, Json)>, ks: Seq<Seq<char>>, vs: Seq<JsonV>)
    requires
        member_keys(v@) =~= ks,
        member_vals(v@) =~= vs,
    ensures
        Json::Object(v)@ == JsonV::Object(ks, vs),
{
    lemma_object_view(v);
    assert(Json::Object(v)@->Object_0 =~= ks);
    assert(Json::Object(v)@->Object_1 =~= vs);
}

fn optional_str_member(v: &mut Vec<(String, Json)>, key: &str, d: &Option<String>)
    ensures
        (member_keys(final(v)@), member_vals(final(v)@)) == with_optional(
            member_keys(old(v)@),
            member_vals(old(v)@),
            key@,
            match *d {
                Some(t) => Some(str_v(t)),
                None => None,
            },
        ),
{
    match d {
        Some(t) => {
            push_member(v, key, str_json(t));
            assert(member_keys(v@) =~= member_keys(old(v)@).push(key@));
            assert(member_vals(v@) =~= member_vals(old(v)@).push(str_v(*t)));
        },
        None => {
            assert(member_keys(v@) =~= member_keys(old(v)@));
            assert(member_vals(v@) =~= member_vals(old(v)@));
        },
    }
}

impl Resource {
    /// The JSON encoding of this resource.
    pub fn to_json_value(&self) -> (r: Json)
        ensures
            r@ == resource_json(*self),
    {
        let mut v: Vec<(String, Json)> = Vec::new();
        push_member(&mut v, "name", str_json(&self.name));
        push_member(&mut v, "value", str_json(&self.value));
        assert(member_keys(v@) =~= seq!["name"@, "value"@]);
        assert(member_vals(v@) =~= seq![str_v(self.name), str_v(self.value)]);
        optional_str_member(&mut v, "description", &self.description);
        proof {
            let j = resource_json(*self);
            lemma_object_is(v, j->Object_0, j->Object_1);
        }
        Json::Object(v)
    }
}

impl RouteInfo {
    /// The JSON encoding of this route.
    pub fn to_json_value(&self) -> (r: Json)
        ensures
            r@ == route_json(*self),
    {
        let mut v: Vec<(String, Json)> = Vec::new();
        push_member(&mut v, "method", str_json(&self.method));
        push_member(&mut v, "path", str_json(&self.path));
        assert(member_keys(v@) =~= seq!["method"@, "path"@]);
        assert(member_vals(v@) =~= seq![str_v(self.method), str_v(self.path)]);
        optional_str_member(&mut v, "description", &self.description);
        proof {
            let j = route_json(*self);
            lemma_object_is(v, j->Object_0, j->Object_1);
        }
        Json::Object(v)
    }
}

fn resource_map_to_json(m: &StrMap<Resource>) -> (r: Json)
    ensures
        r@ == resource_map_json(m@),
{
    let mut v: Vec<(String, Json)> = Vec::new();
    let mut i: usize = 0;
    while i < m.len()
        invariant
            i <= m@.len(),
            v@.len() == i,
            forall|j: int| 0 <= j < i ==> (#[trigger] v@[j]).0@ == m@[j].0@ && v@[j].1@ == resource_json(m@[j].1),
        decreases m@.len() - i,
    {
        let k = m.key_at(i).clone();
        let val = m.value_at(i).to_json_value();
        v.push((k, val));
        i = i + 1;
    }
    proof {
        let s = m@;
        lemma_object_is(v, Seq::new(s.len(), |i: int| s[i].0@), Seq::new(s.len(), |i: int| resource_json(s[i].1)));
    }
    Json::Object(v)
}

pub(crate) fn string_map_to_json(m: &StrMap<String>) -> (r: Json)
    ensures
        r@ == string_map_json(m@),
{
    let mut v: Vec<(String, Json)> = Vec::new();
    let mut i: usize = 0;
    while i < m.len()
        invariant
            i <= m@.len(),
            v@.len() == i,
            forall|j: int| 0 <= j < i ==> (#[trigger] v@[j]).0@ == m@[j].0@ && v@[j].1@ == str_v(m@[j].1),
        decreases m@.len() - i,
    {
        let k = m.key_at(i).clone();
        let val = str_json(m.value_at(i));
        v.push((k, val));
        i = i + 1;
    }
    proof {
        let s = m@;
        lemma_object_is(v, Seq::new(s.len(), |i: int| s[i].0@), Seq::new(s.len(), |i: int| str_v(s[i].1)));
    }
    Json::Object(v)
}

fn string_list_to_json(items: &Vec<String>) -> (r: Json)
    ensures
        r@ == string_list_json(items@),
{
    let mut v: Vec<Json> = Vec::new();
    let mut i: usize = 0;
    while i < items.len()
        invariant
            i <= items@.len(),
            v@.len() == i,
            forall|j: int| 0 <= j < i ==> #[trigger] v@[j]@ == str_v(items@[j]),
        decreases items.len() - i,
    {
        v.push(str_json(&items[i]));
        i = i + 1;
    }
    proof {
        lemma_array_view(v);
        assert(Json::Array(v)@->Array_0 =~= string_list_json(items@)->Array_0);
    }
    Json::Array(v)
}

fn routes_to_json(routes: &Vec<RouteInfo>) -> (r: Json)
    ensures
        r@ == JsonV::Array(Seq::new(routes@.len(), |i: int| route_json(routes@[i]))),
{
    let mut v: Vec<Json> = Vec::new();
    let mut i: usize = 0;
    while i < routes.len()
        invariant
            i <= routes@.len(),
            v@.len() == i,
            forall|j: int| 0 <= j < i ==> #[trigger] v@[j]@ == route_json(routes@[j]),
        decreases routes.len() - i,
    {
        v.push(routes[i].to_json_value());
        i = i + 1;
    }
    proof {
        lemma_array_view(v);
        assert(Json::Array(v)@->Array_0 =~= Seq::new(routes@.len(), |i: int| route_json(routes@[i])));
    }
    Json::Array(v)
}

impl Requirements {
    /// The JSON encoding of these requirements.
    pub fn to_json_value(&self) -> (r: Json)
        ensures
            r@ == requirements_json(*self),
    {
        let mut v: Vec<(String, Json)> = Vec::new();
        push_member(&mut v, "recommended", resource_map_to_json(&self.recommended));
        push_member(&mut v, "required", resource_map_to_json(&self.required));
        push_member(&mut v, "platforms", string_list_to_json(&self.platforms));
        push_member(&mut v, "environment", string_list_to_json(&self.environment));
        proof {
            lemma_object_is(
                v,
                seq!["recommended"@, "required"@, "platforms"@, "environment"@],
                seq![
                    resource_map_json(self.recommended@),
                    resource_map_json(self.required@),
                    string_list_json(self.platforms@),
                    string_list_json(self.environment@),
                ],
            );
        }
        Json::Object(v)
    }
}

impl FunctionInfo {
    /// The JSON encoding of this metadata.
    pub fn to_json_value(&self) -> (r: Json)
        ensures
            r@ == info_json(*self),
    {
        let mut v: Vec<(String, Json)> = Vec::new();
        push_member(&mut v, "name", str_json(&self.name));
        assert(member_keys(v@) =~= seq!["name"@]);
        assert(member_vals(v@) =~= seq![str_v(self.name)]);
        optional_str_member(&mut v, "description", &self.description);
        let ghost v1 = v@;
        push_member(&mut v, "resources", self.resources.to_json_value());
        assert(member_keys(v@) =~= member_keys(v1).push("resources"@));
        assert(member_vals(v@) =~= member_vals(v1).push(requirements_json(self.resources)));
        let ghost v2 = v@;
        if self.routes.len() > 0 {
            push_member(&mut v, "routes", routes_to_json(&self.routes));
            assert(member_keys(v@) =~= member_keys(v2).push("routes"@));
            assert(member_vals(v@) =~= member_vals(v2).push(JsonV::Array(Seq::new(self.routes@.len(), |i: int| route_json(self.routes@[i])))));
        } else {
            assert(member_keys(v@) =~= member_keys(v2));
        }
        let ghost v3 = v@;
        if self.metadata.len() > 0 {
            push_member(&mut v, "metadata", string_map_to_json(&self.metadata));
            assert(member_keys(v@) =~= member_keys(v3).push("metadata"@));
            assert(member_vals(v@) =~= member_vals(v3).push(string_map_json(self.metadata@)));
        } else {
            assert(member_keys(v@) =~= member_keys(v3));
        }
        proof {
            let j = info_json(*self);
            lemma_object_is(v, j->Object_0, j->Object_1);
        }
        Json::Object(v)
    }

    /// The JSON text of this metadata; never fails.
    pub fn to_json(&self) -> (r: String)
        ensures
            r@ == json_text(info_json(*self)),
    {
        self.to_json_value().to_text()
    }

    /// This metadata rendered in `format`.
    pub fn render(&self, format: OutputFormat) -> (r: String)
        ensures
            r@ == rendered(*self, format),
    {
        match format {
            OutputFormat::Json => self.to_json(),
            OutputFormat::Text => self.format_for_display(),
        }
    }
}

} // verus!
