//! Decoding function metadata from its JSON encoding, and the law that
//! decoding an encoding gives the metadata back.

use crate::error::{Error, ErrorKind};
use crate::info::{
    info_json, requirements_json, resource_json, resource_map_json, route_json, str_v,
    string_list_json, string_map_json, FunctionInfo, RouteInfo,
};
use crate::json::{
    first_key, lemma_array_view, lemma_first_key, lemma_first_key_is, lemma_first_key_none,
    lemma_object_view, member_of, texts, Json, JsonV,
};
use crate::requirements::{opt_text, Requirements, Resource};
use crate::strmap::{
    first_index, inserted, inserted_kv, keys_unique, lemma_first_index, lemma_first_index_keys,
    lemma_inserted_texts, text_keys, text_vals, StrMap, at_positions, sorted_entries,
};
use vstd::prelude::*;

verus! {

broadcast use vstd::string::group_string_axioms;

/// What a [`Resource`] holds.
pub ghost struct ResourceV {
    pub name: Seq<char>,
    pub value: Seq<char>,
    pub description: Option<Seq<char>>,
}

/// What a [`RouteInfo`] holds.
pub ghost struct RouteV {
    pub method: Seq<char>,
    pub path: Seq<char>,
    pub description: Option<Seq<char>>,
}

/// What [`Requirements`] hold; each map as its keys and its values, in order.
pub ghost struct RequirementsV {
    pub recommended: (Seq<Seq<char>>, Seq<ResourceV>),
    pub required: (Seq<Seq<char>>, Seq<ResourceV>),
    pub platforms: Seq<Seq<char>>,
    pub environment: Seq<Seq<char>>,
}

/// What a [`FunctionInfo`] holds.
pub ghost struct InfoV {
    pub name: Seq<char>,
    pub description: Option<Seq<char>>,
    pub resources: RequirementsV,
    pub routes: Seq<RouteV>,
    pub metadata: (Seq<Seq<char>>, Seq<Seq<char>>),
}

pub open spec fn resource_view(r: Resource) -> ResourceV {
    ResourceV { name: r.name@, value: r.value@, description: opt_text(r.description) }
}

pub open spec fn route_view(r: RouteInfo) -> RouteV {
    RouteV { method: r.method@, path: r.path@, description: opt_text(r.description) }
}

pub open spec fn resource_map_view(s: Seq<(String, Resource)>) -> (Seq<Seq<char>>, Seq<ResourceV>) {
    (text_keys(s), Seq::new(s.len(), |i: int| resource_view(s[i].1)))
}

pub open spec fn requirements_view(r: Requirements) -> RequirementsV {
    RequirementsV {
        recommended: resource_map_view(r.recommended@),
        required: resource_map_view(r.required@),
        platforms: texts(r.platforms@),
        environment: texts(r.environment@),
    }
}

pub open spec fn info_view(x: FunctionInfo) -> InfoV {
    InfoV {
        name: x.name@,
        description: opt_text(x.description),
        resources: requirements_view(x.resources),
        routes: Seq::new(x.routes@.len(), |i: int| route_view(x.routes@[i])),
        metadata: (text_keys(x.metadata@), text_vals(x.metadata@)),
    }
}

/// A required string member.
pub open spec fn need_text(j: JsonV, k: Seq<char>) -> Option<Seq<char>> {
    match member_of(j, k) {
        Some(JsonV::Str(t)) => Some(t),
        _ => None,
    }
}

/// An optional string member: absent or null gives `Some(None)`; a string
/// gives it; anything else is malformed (`None`).
pub open spec fn maybe_text(j: JsonV, k: Seq<char>) -> Option<Option<Seq<char>>> {
    match member_of(j, k) {
        None => Some(None),
        Some(JsonV::Null) => Some(None),
        Some(JsonV::Str(t)) => Some(Some(t)),
        _ => None,
    }
}

pub open spec fn decode_resource(j: JsonV) -> Option<ResourceV> {
    if j is Object && need_text(j, "name"@) is Some && need_text(j, "value"@) is Some && maybe_text(
        j,
        "description"@,
    ) is Some {
        Some(
            ResourceV {
                name: need_text(j, "name"@)->0,
                value: need_text(j, "value"@)->0,
                description: maybe_text(j, "description"@)->0,
            },
        )
    } else {
        None
    }
}

pub open spec fn decode_route(j: JsonV) -> Option<RouteV> {
    if j is Object && need_text(j, "method"@) is Some && need_text(j, "path"@) is Some
        && maybe_text(j, "description"@) is Some {
        Some(
            RouteV {
                method: need_text(j, "method"@)->0,
                path: need_text(j, "path"@)->0,
                description: maybe_text(j, "description"@)->0,
            },
        )
    } else {
        None
    }
}

/// The first `n` members decoded as resources and inserted in order.
pub open spec fn resource_fold(ks: Seq<Seq<char>>, vs: Seq<JsonV>, n: int) -> Option<
    (Seq<Seq<char>>, Seq<ResourceV>),
>
    decreases n,
{
    if n <= 0 || n > vs.len() || n > ks.len() {
        Some((Seq::empty(), Seq::empty()))
    } else {
        match resource_fold(ks, vs, n - 1) {
            None => None,
            Some(r) => match decode_resource(vs[n - 1]) {
                None => None,
                Some(x) => Some(inserted_kv(r.0, r.1, ks[n - 1], x)),
            },
        }
    }
}

/// The first `n` members as strings, inserted in order.
pub open spec fn text_fold(ks: Seq<Seq<char>>, vs: Seq<JsonV>, n: int) -> Option<
    (Seq<Seq<char>>, Seq<Seq<char>>),
>
    decreases n,
{
    if n <= 0 || n > vs.len() || n > ks.len() {
        Some((Seq::empty(), Seq::empty()))
    } else {
        match text_fold(ks, vs, n - 1) {
            None => None,
            Some(r) => match vs[n - 1] {
                JsonV::Str(x) => Some(inserted_kv(r.0, r.1, ks[n - 1], x)),
                _ => None,
            },
        }
    }
}

pub open spec fn decode_resource_map(j: JsonV, k: Seq<char>) -> Option<
    (Seq<Seq<char>>, Seq<ResourceV>),
> {
    match member_of(j, k) {
        None => Some((Seq::empty(), Seq::empty())),
        Some(JsonV::Object(ks, vs)) => resource_fold(ks, vs, vs.len() as int),
        _ => None,
    }
}

pub open spec fn decode_text_map(j: JsonV, k: Seq<char>) -> Option<(Seq<Seq<char>>, Seq<Seq<char>>)> {
    match member_of(j, k) {
        None => Some((Seq::empty(), Seq::empty())),
        Some(JsonV::Object(ks, vs)) => text_fold(ks, vs, vs.len() as int),
        _ => None,
    }
}

pub open spec fn decode_text_list(j: JsonV, k: Seq<char>) -> Option<Seq<Seq<char>>> {
    match member_of(j, k) {
        None => Some(Seq::empty()),
        Some(JsonV::Array(items)) => if forall|i: int| 0 <= i < items.len() ==> #[trigger] items[i] is Str {
            Some(Seq::new(items.len(), |i: int| items[i]->Str_0))
        } else {
            None
        },
        _ => None,
    }
}

pub open spec fn decode_routes(j: JsonV, k: Seq<char>) -> Option<Seq<RouteV>> {
    match member_of(j, k) {
        None => Some(Seq::empty()),
        Some(JsonV::Array(items)) => if forall|i: int|
            0 <= i < items.len() ==> #[trigger] decode_route(items[i]) is Some {
            Some(Seq::new(items.len(), |i: int| decode_route(items[i])->0))
        } else {
            None
        },
        _ => None,
    }
}

pub open spec fn decode_requirements(j: JsonV) -> Option<RequirementsV> {
    if j is Object && decode_resource_map(j, "recommended"@) is Some && decode_resource_map(
        j,
        "required"@,
    ) is Some && decode_text_list(j, "platforms"@) is Some && decode_text_list(
        j,
        "environment"@,
    ) is Some {
        Some(
            RequirementsV {
                recommended: decode_resource_map(j, "recommended"@)->0,
                required: decode_resource_map(j, "required"@)->0,
                platforms: decode_text_list(j, "platforms"@)->0,
                environment: decode_text_list(j, "environment"@)->0,
            },
        )
    } else {
        None
    }
}

/// The metadata a JSON value encodes: an object with a string `name`, an
/// optional string `description`, `resources` (an object whose maps and lists
/// default to empty), optional `routes` and optional string-valued `metadata`;
/// other members are ignored. `None` where the value is malformed.
pub open spec fn decode_info(j: JsonV) -> Option<InfoV> {
    match member_of(j, "resources"@) {
        Some(res) => if j is Object && need_text(j, "name"@) is Some && maybe_text(
            j,
            "description"@,
        ) is Some && decode_requirements(res) is Some && decode_routes(j, "routes"@) is Some
            && decode_text_map(j, "metadata"@) is Some {
            Some(
                InfoV {
                    name: need_text(j, "name"@)->0,
                    description: maybe_text(j, "description"@)->0,
                    resources: decode_requirements(res)->0,
                    routes: decode_routes(j, "routes"@)->0,
                    metadata: decode_text_map(j, "metadata"@)->0,
                },
            )
        } else {
            None
        },
        None => None,
    }
}

/// Finding a key in a key list with one more key, last.
pub broadcast proof fn lemma_first_key_push(ks: Seq<Seq<char>>, k: Seq<char>, q: Seq<char>)
    ensures
        #[trigger] first_key(ks.push(k), q) == (if first_key(ks, q) is Some {
            first_key(ks, q)
        } else if q == k {
            Some(ks.len() as int)
        } else {
            None
        }),
{
    let ks2 = ks.push(k);
    lemma_first_key(ks, q);
    match first_key(ks, q) {
        Some(i) => {
            assert(forall|j: int| 0 <= j < i ==> ks2[j] == ks[j]);
            lemma_first_key_is(ks2, q, i);
        },
        None => {
            if q == k {
                assert(forall|j: int| 0 <= j < ks.len() ==> ks2[j] == ks[j]);
                lemma_first_key_is(ks2, q, ks.len() as int);
            } else {
                assert forall|j: int| 0 <= j < ks2.len() implies ks2[j] != q by {
                    if j < ks.len() {
                        assert(ks2[j] == ks[j]);
                    }
                }
                lemma_first_key_none(ks2, q);
            }
        },
    }
}

/// The member names of the encoding differ wherever they share an object.
proof fn lemma_member_names_differ()
    ensures
        "name"@ != "value"@,
        "name"@ != "description"@,
        "value"@ != "description"@,
        "method"@ != "path"@,
        "method"@ != "description"@,
        "path"@ != "description"@,
        "recommended"@ != "required"@,
        "recommended"@ != "platforms"@,
        "recommended"@ != "environment"@,
        "required"@ != "platforms"@,
        "required"@ != "environment"@,
        "platforms"@ != "environment"@,
        "name"@ != "resources"@,
        "name"@ != "routes"@,
        "name"@ != "metadata"@,
        "description"@ != "resources"@,
        "description"@ != "routes"@,
        "description"@ != "metadata"@,
        "resources"@ != "routes"@,
        "resources"@ != "metadata"@,
        "routes"@ != "metadata"@,
{
    reveal_strlit("name");
    reveal_strlit("value");
    reveal_strlit("description");
    reveal_strlit("method");
    reveal_strlit("path");
    reveal_strlit("recommended");
    reveal_strlit("required");
    reveal_strlit("platforms");
    reveal_strlit("environment");
    reveal_strlit("resources");
    reveal_strlit("routes");
    reveal_strlit("metadata");
    assert("name"@.len() == 4);
    assert("value"@.len() == 5);
    assert("description"@.len() == 11);
    assert("method"@.len() == 6);
    assert("path"@.len() == 4);
    assert("recommended"@.len() == 11);
    assert("required"@.len() == 8);
    assert("platforms"@.len() == 9);
    assert("environment"@.len() == 11);
    assert("resources"@.len() == 9);
    assert("routes"@.len() == 6);
    assert("metadata"@.len() == 8);
    assert("recommended"@[0] == 'r');
    assert("environment"@[0] == 'e');
    assert("description"@[0] == 'd');
}

/// Looking a key up in an object with one more member, last.
pub broadcast proof fn lemma_member_of_push(
    ks: Seq<Seq<char>>,
    vs: Seq<JsonV>,
    k: Seq<char>,
    v: JsonV,
    q: Seq<char>,
)
    requires
        ks.len() == vs.len(),
    ensures
        #[trigger] member_of(JsonV::Object(ks.push(k), vs.push(v)), q) == (if first_key(ks, q) is Some {
            member_of(JsonV::Object(ks, vs), q)
        } else if q == k {
            Some(v)
        } else {
            None
        }),
{
    let ks2 = ks.push(k);
    lemma_first_key(ks, q);
    match first_key(ks, q) {
        Some(i) => {
            assert(forall|j: int| 0 <= j < i ==> ks2[j] == ks[j]);
            lemma_first_key_is(ks2, q, i);
        },
        None => {
            if q == k {
                assert(forall|j: int| 0 <= j < ks.len() ==> ks2[j] == ks[j]);
                lemma_first_key_is(ks2, q, ks.len() as int);
            } else {
                assert forall|j: int| 0 <= j < ks2.len() implies ks2[j] != q by {
                    if j < ks.len() {
                        assert(ks2[j] == ks[j]);
                    }
                }
                lemma_first_key_none(ks2, q);
            }
        },
    }
}

proof fn lemma_resource_round_trip(r: Resource)
    ensures
        decode_resource(resource_json(r)) == Some(resource_view(r)),
{
    broadcast use lemma_member_of_push, lemma_first_key_push;

    lemma_member_names_differ();
    assert(seq!["name"@, "value"@] =~= Seq::<Seq<char>>::empty().push("name"@).push("value"@));
    assert(seq![str_v(r.name), str_v(r.value)] =~= Seq::<JsonV>::empty().push(str_v(r.name)).push(
        str_v(r.value),
    ));
}

proof fn lemma_route_round_trip(r: RouteInfo)
    ensures
        decode_route(route_json(r)) == Some(route_view(r)),
{
    broadcast use lemma_member_of_push, lemma_first_key_push;

    lemma_member_names_differ();
    assert(seq!["method"@, "path"@] =~= Seq::<Seq<char>>::empty().push("method"@).push("path"@));
    assert(seq![str_v(r.method), str_v(r.path)] =~= Seq::<JsonV>::empty().push(str_v(r.method)).push(
        str_v(r.path),
    ));
}

/// Decoding the first `n` members of an encoded map with unique keys.
proof fn lemma_resource_fold_round_trip(s: Seq<(String, Resource)>, n: int)
    requires
        keys_unique(s),
        0 <= n <= s.len(),
    ensures
        resource_fold(resource_map_json(s)->Object_0, resource_map_json(s)->Object_1, n) == Some(
            (resource_map_view(s).0.take(n), resource_map_view(s).1.take(n)),
        ),
    decreases n,
{
    let ks = resource_map_json(s)->Object_0;
    let vs = resource_map_json(s)->Object_1;
    let mv = resource_map_view(s);
    if n == 0 {
        assert(mv.0.take(0) =~= Seq::<Seq<char>>::empty());
        assert(mv.1.take(0) =~= Seq::<ResourceV>::empty());
    } else {
        lemma_resource_fold_round_trip(s, n - 1);
        lemma_resource_round_trip(s[n - 1].1);
        let prev = mv.0.take(n - 1);
        assert forall|j: int| 0 <= j < prev.len() implies prev[j] != ks[n - 1] by {
            assert(prev[j] == s[j].0@);
        }
        lemma_first_key_none(prev, ks[n - 1]);
        assert(mv.0.take(n) =~= prev.push(ks[n - 1]));
        assert(mv.1.take(n) =~= mv.1.take(n - 1).push(resource_view(s[n - 1].1)));
    }
}

proof fn lemma_text_fold_round_trip(s: Seq<(String, String)>, n: int)
    requires
        keys_unique(s),
        0 <= n <= s.len(),
    ensures
        text_fold(string_map_json(s)->Object_0, string_map_json(s)->Object_1, n) == Some(
            (text_keys(s).take(n), text_vals(s).take(n)),
        ),
    decreases n,
{
    let ks = string_map_json(s)->Object_0;
    if n == 0 {
        assert(text_keys(s).take(0) =~= Seq::<Seq<char>>::empty());
        assert(text_vals(s).take(0) =~= Seq::<Seq<char>>::empty());
    } else {
        lemma_text_fold_round_trip(s, n - 1);
        let prev = text_keys(s).take(n - 1);
        assert forall|j: int| 0 <= j < prev.len() implies prev[j] != ks[n - 1] by {
            assert(prev[j] == s[j].0@);
        }
        lemma_first_key_none(prev, ks[n - 1]);
        assert(text_keys(s).take(n) =~= prev.push(ks[n - 1]));
        assert(text_vals(s).take(n) =~= text_vals(s).take(n - 1).push(s[n - 1].1@));
    }
}

proof fn lemma_text_list_round_trip(s: Seq<String>)
    ensures
        match string_list_json(s) {
            JsonV::Array(items) => (forall|i: int| 0 <= i < items.len() ==> #[trigger] items[i] is Str)
                && Seq::new(items.len(), |i: int| items[i]->Str_0) == texts(s),
            _ => false,
        },
{
    let items = string_list_json(s)->Array_0;
    assert(Seq::new(items.len(), |i: int| items[i]->Str_0) =~= texts(s));
}

proof fn lemma_requirements_round_trip(r: Requirements)
    requires
        r.wf(),
    ensures
        decode_requirements(requirements_json(r)) == Some(requirements_view(r)),
{
    broadcast use lemma_member_of_push, lemma_first_key_push;

    let j = requirements_json(r);
    lemma_member_names_differ();
    assert(j->Object_0 =~= Seq::<Seq<char>>::empty().push("recommended"@).push("required"@).push(
        "platforms"@,
    ).push("environment"@));
    assert(j->Object_1 =~= Seq::<JsonV>::empty().push(resource_map_json(r.recommended@)).push(
        resource_map_json(r.required@),
    ).push(string_list_json(r.platforms@)).push(string_list_json(r.environment@)));
    assert(member_of(j, "recommended"@) == Some(resource_map_json(r.recommended@)));
    assert(member_of(j, "required"@) == Some(resource_map_json(r.required@)));
    assert(member_of(j, "platforms"@) == Some(string_list_json(r.platforms@)));
    assert(member_of(j, "environment"@) == Some(string_list_json(r.environment@)));
    lemma_resource_fold_round_trip(r.recommended@, r.recommended@.len() as int);
    lemma_resource_fold_round_trip(r.required@, r.required@.len() as int);
    let rv = resource_map_view(r.recommended@);
    let qv = resource_map_view(r.required@);
    assert(rv.0.take(rv.0.len() as int) =~= rv.0);
    assert(rv.1.take(rv.1.len() as int) =~= rv.1);
    assert(qv.0.take(qv.0.len() as int) =~= qv.0);
    assert(qv.1.take(qv.1.len() as int) =~= qv.1);
    lemma_text_list_round_trip(r.platforms@);
    lemma_text_list_round_trip(r.environment@);
}

/// Decoding the JSON encoding of metadata built by the builders (each map
/// holding a key once) gives that metadata back: with the contracts of
/// `to_json_value` and `from_json_value`, decoding `x.to_json_value()`
/// succeeds with a value whose view, [`info_view`], is that of `x`.
pub proof fn lemma_info_round_trip(x: FunctionInfo)
    requires
        x.wf(),
    ensures
        decode_info(info_json(x)) == Some(info_view(x)),
{
    broadcast use lemma_member_of_push, lemma_first_key_push;

    let j = info_json(x);
    lemma_member_names_differ();
    lemma_requirements_round_trip(x.resources);
    assert(member_of(j, "resources"@) == Some(requirements_json(x.resources)));
    assert(need_text(j, "name"@) == Some(x.name@));
    assert(maybe_text(j, "description"@) == Some(opt_text(x.description)));
    let routes = x.routes@;
    if routes.len() > 0 {
        let items = Seq::new(routes.len(), |i: int| route_json(routes[i]));
        assert(member_of(j, "routes"@) == Some(JsonV::Array(items)));
        assert forall|i: int| 0 <= i < items.len() implies #[trigger] decode_route(items[i]) == Some(
            route_view(routes[i]),
        ) by {
            lemma_route_round_trip(routes[i]);
        }
        assert(Seq::new(items.len(), |i: int| decode_route(items[i])->0) =~= Seq::new(
            routes.len(),
            |i: int| route_view(routes[i]),
        ));
    } else {
        assert(member_of(j, "routes"@) is None);
        assert(Seq::new(routes.len(), |i: int| route_view(routes[i])) =~= Seq::<RouteV>::empty());
    }
    let m = x.metadata@;
    if m.len() > 0 {
        assert(member_of(j, "metadata"@) == Some(string_map_json(m)));
        lemma_text_fold_round_trip(m, m.len() as int);
        assert(text_keys(m).take(m.len() as int) =~= text_keys(m));
        assert(text_vals(m).take(m.len() as int) =~= text_vals(m));
    } else {
        assert(member_of(j, "metadata"@) is None);
        assert(text_keys(m) =~= Seq::<Seq<char>>::empty());
        assert(text_vals(m) =~= Seq::<Seq<char>>::empty());
    }
}

fn malformed() -> (e: Error)
    ensures
        e.spec_kind() == ErrorKind::Serialization,
{
    Error::serialization("malformed function metadata")
}

fn need_str(j: &Json, k: &str) -> (r: Result<String, Error>)
    ensures
        match r {
            Ok(s) => need_text(j@, k@) == Some(s@),
            Err(e) => need_text(j@, k@) is None && e.spec_kind() == ErrorKind::Serialization,
        },
{
    match j.member(k) {
        Some(m) => match m {
            Json::Str(s) => Ok(s.clone()),
            _ => Err(malformed()),
        },
        None => Err(malformed()),
    }
}

fn maybe_str(j: &Json, k: &str) -> (r: Result<Option<String>, Error>)
    ensures
        match r {
            Ok(o) => maybe_text(j@, k@) == Some(opt_text(o)),
            Err(e) => maybe_text(j@, k@) is None && e.spec_kind() == ErrorKind::Serialization,
        },
{
    match j.member(k) {
        Some(m) => match m {
            Json::Str(s) => Ok(Some(s.clone())),
            Json::Null => Ok(None),
            _ => Err(malformed()),
        },
        None => Ok(None),
    }
}

impl Resource {
    /// The resource a JSON value encodes; a serialization error where it is
    /// malformed.
    pub fn from_json_value(j: &Json) -> (r: Result<Resource, Error>)
        ensures
            match r {
                Ok(x) => decode_resource(j@) == Some(resource_view(x)),
                Err(e) => decode_resource(j@) is None && e.spec_kind() == ErrorKind::Serialization,
            },
    {
        match j {
            Json::Object(_) => {},
            _ => {
                return Err(malformed());
            },
        }
        let name = need_str(j, "name")?;
        let value = need_str(j, "value")?;
        let description = maybe_str(j, "description")?;
        Ok(Resource { name, value, description })
    }
}

impl RouteInfo {
    /// The route a JSON value encodes; a serialization error where it is
    /// malformed.
    pub fn from_json_value(j: &Json) -> (r: Result<RouteInfo, Error>)
        ensures
            match r {
                Ok(x) => decode_route(j@) == Some(route_view(x)),
                Err(e) => decode_route(j@) is None && e.spec_kind() == ErrorKind::Serialization,
            },
    {
        match j {
            Json::Object(_) => {},
            _ => {
                return Err(malformed());
            },
        }
        let method = need_str(j, "method")?;
        let path = need_str(j, "path")?;
        let description = maybe_str(j, "description")?;
        Ok(RouteInfo { method, path, description })
    }
}

proof fn lemma_resource_fold_fails(ks: Seq<Seq<char>>, vs: Seq<JsonV>, i: int, n: int)
    requires
        0 < i <= n <= vs.len(),
        n <= ks.len(),
        resource_fold(ks, vs, i) is None,
    ensures
        resource_fold(ks, vs, n) is None,
    decreases n - i,
{
    if n > i {
        lemma_resource_fold_fails(ks, vs, i, n - 1);
    }
}

proof fn lemma_text_fold_fails(ks: Seq<Seq<char>>, vs: Seq<JsonV>, i: int, n: int)
    requires
        0 < i <= n <= vs.len(),
        n <= ks.len(),
        text_fold(ks, vs, i) is None,
    ensures
        text_fold(ks, vs, n) is None,
    decreases n - i,
{
    if n > i {
        lemma_text_fold_fails(ks, vs, i, n - 1);
    }
}

/// Insertion into a resource map, seen through the views.
proof fn lemma_inserted_resources(s: Seq<(String, Resource)>, k: String, r: Resource)
    ensures
        resource_map_view(inserted(s, k, r)) == inserted_kv(
            resource_map_view(s).0,
            resource_map_view(s).1,
            k@,
            resource_view(r),
        ),
{
    lemma_first_index_keys(s, k@);
    lemma_first_index(s, k@);
    let t = inserted(s, k, r);
    let e = inserted_kv(resource_map_view(s).0, resource_map_view(s).1, k@, resource_view(r));
    assert(resource_map_view(t).0 =~= e.0);
    assert(resource_map_view(t).1 =~= e.1);
}

fn decode_resource_map_value(j: &Json, k: &str) -> (r: Result<StrMap<Resource>, Error>)
    ensures
        match r {
            Ok(m) => decode_resource_map(j@, k@) == Some(resource_map_view(m@)) && m.wf(),
            Err(e) => decode_resource_map(j@, k@) is None && e.spec_kind() == ErrorKind::Serialization,
        },
{
    let mut map: StrMap<Resource> = StrMap::new();
    match j.member(k) {
        None => {
            assert(resource_map_view(map@).0 =~= Seq::<Seq<char>>::empty());
            assert(resource_map_view(map@).1 =~= Seq::<ResourceV>::empty());
            Ok(map)
        },
        Some(obj) => match obj {
            Json::Object(v) => {
                proof {
                    lemma_object_view(*v);
                }
                let ghost ks = obj@->Object_0;
                let ghost vs = obj@->Object_1;
                assert(resource_map_view(map@).0 =~= Seq::<Seq<char>>::empty());
                assert(resource_map_view(map@).1 =~= Seq::<ResourceV>::empty());
                let mut i: usize = 0;
                while i < v.len()
                    invariant
                        i <= v@.len(),
                        ks.len() == v@.len(),
                        vs.len() == v@.len(),
                        member_of(j@, k@) == Some(JsonV::Object(ks, vs)),
                        forall|q: int| 0 <= q < v@.len() ==> #[trigger] ks[q] == v@[q].0@,
                        forall|q: int| 0 <= q < v@.len() ==> #[trigger] vs[q] == v@[q].1@,
                        resource_fold(ks, vs, i as int) == Some(resource_map_view(map@)),
                        map.wf(),
                    decreases v.len() - i,
                {
                    match Resource::from_json_value(&v[i].1) {
                        Ok(res) => {
                            let key = v[i].0.clone();
                            proof {
                                lemma_inserted_resources(map@, key, res);
                            }
                            map.insert(key, res);
                        },
                        Err(e) => {
                            proof {
                                lemma_resource_fold_fails(ks, vs, i + 1, vs.len() as int);
                            }
                            return Err(e);
                        },
                    }
                    i = i + 1;
                }
                Ok(map)
            },
            _ => Err(malformed()),
        },
    }
}

fn decode_text_map_value(j: &Json, k: &str) -> (r: Result<StrMap<String>, Error>)
    ensures
        match r {
            Ok(m) => decode_text_map(j@, k@) == Some((text_keys(m@), text_vals(m@))) && m.wf(),
            Err(e) => decode_text_map(j@, k@) is None && e.spec_kind() == ErrorKind::Serialization,
        },
{
    let mut map: StrMap<String> = StrMap::new();
    assert(text_keys(map@) =~= Seq::<Seq<char>>::empty());
    assert(text_vals(map@) =~= Seq::<Seq<char>>::empty());
    match j.member(k) {
        None => Ok(map),
        Some(obj) => match obj {
            Json::Object(v) => {
                proof {
                    lemma_object_view(*v);
                }
                let ghost ks = obj@->Object_0;
                let ghost vs = obj@->Object_1;
                let mut i: usize = 0;
                while i < v.len()
                    invariant
                        i <= v@.len(),
                        ks.len() == v@.len(),
                        vs.len() == v@.len(),
                        member_of(j@, k@) == Some(JsonV::Object(ks, vs)),
                        forall|q: int| 0 <= q < v@.len() ==> #[trigger] ks[q] == v@[q].0@,
                        forall|q: int| 0 <= q < v@.len() ==> #[trigger] vs[q] == v@[q].1@,
                        text_fold(ks, vs, i as int) == Some((text_keys(map@), text_vals(map@))),
                        map.wf(),
                    decreases v.len() - i,
                {
                    match &v[i].1 {
                        Json::Str(x) => {
                            let key = v[i].0.clone();
                            let val = x.clone();
                            proof {
                                lemma_inserted_texts(map@, key, val);
                            }
                            map.insert(key, val);
                        },
                        _ => {
                            proof {
                                lemma_text_fold_fails(ks, vs, i + 1, vs.len() as int);
                            }
                            return Err(malformed());
                        },
                    }
                    i = i + 1;
                }
                Ok(map)
            },
            _ => Err(malformed()),
        },
    }
}

fn decode_text_list_value(j: &Json, k: &str) -> (r: Result<Vec<String>, Error>)
    ensures
        match r {
            Ok(l) => decode_text_list(j@, k@) == Some(texts(l@)),
            Err(e) => decode_text_list(j@, k@) is None && e.spec_kind() == ErrorKind::Serialization,
        },
{
    let mut out: Vec<String> = Vec::new();
    match j.member(k) {
        None => {
            assert(texts(out@) =~= Seq::<Seq<char>>::empty());
            Ok(out)
        },
        Some(arr) => match arr {
            Json::Array(v) => {
                proof {
                    lemma_array_view(*v);
                }
                let ghost items = arr@->Array_0;
                let mut i: usize = 0;
                while i < v.len()
                    invariant
                        i <= v@.len(),
                        items.len() == v@.len(),
                        member_of(j@, k@) == Some(JsonV::Array(items)),
                        forall|q: int| 0 <= q < v@.len() ==> #[trigger] items[q] == v@[q]@,
                        out@.len() == i,
                        forall|q: int| 0 <= q < i ==> #[trigger] items[q] is Str && items[q]->Str_0 == out@[q]@,
                    decreases v.len() - i,
                {
                    match &v[i] {
                        Json::Str(x) => {
                            out.push(x.clone());
                        },
                        _ => {
                            assert(!(items[i as int] is Str));
                            return Err(malformed());
                        },
                    }
                    i = i + 1;
                }
                assert(texts(out@) =~= Seq::new(items.len(), |q: int| items[q]->Str_0));
                Ok(out)
            },
            _ => Err(malformed()),
        },
    }
}

fn decode_routes_value(j: &Json, k: &str) -> (r: Result<Vec<RouteInfo>, Error>)
    ensures
        match r {
            Ok(l) => decode_routes(j@, k@) == Some(Seq::new(l@.len(), |q: int| route_view(l@[q]))),
            Err(e) => decode_routes(j@, k@) is None && e.spec_kind() == ErrorKind::Serialization,
        },
{
    let mut out: Vec<RouteInfo> = Vec::new();
    match j.member(k) {
        None => {
            assert(Seq::new(out@.len(), |q: int| route_view(out@[q])) =~= Seq::<RouteV>::empty());
            Ok(out)
        },
        Some(arr) => match arr {
            Json::Array(v) => {
                proof {
                    lemma_array_view(*v);
                }
                let ghost items = arr@->Array_0;
                let mut i: usize = 0;
                while i < v.len()
                    invariant
                        i <= v@.len(),
                        items.len() == v@.len(),
                        member_of(j@, k@) == Some(JsonV::Array(items)),
                        forall|q: int| 0 <= q < v@.len() ==> #[trigger] items[q] == v@[q]@,
                        out@.len() == i,
                        forall|q: int| 0 <= q < i ==> #[trigger] decode_route(items[q]) == Some(route_view(out@[q])),
                    decreases v.len() - i,
                {
                    match RouteInfo::from_json_value(&v[i]) {
                        Ok(route) => {
                            out.push(route);
                        },
                        Err(e) => {
                            assert(decode_route(items[i as int]) is None);
                            return Err(e);
                        },
                    }
                    i = i + 1;
                }
                assert(Seq::new(out@.len(), |q: int| route_view(out@[q])) =~= Seq::new(
                    items.len(),
                    |q: int| decode_route(items[q])->0,
                ));
                Ok(out)
            },
            _ => Err(malformed()),
        },
    }
}

impl Requirements {
    /// The requirements a JSON value encodes; a serialization error where it
    /// is malformed.
    pub fn from_json_value(j: &Json) -> (r: Result<Requirements, Error>)
        ensures
            match r {
                Ok(x) => decode_requirements(j@) == Some(requirements_view(x)) && x.wf(),
                Err(e) => decode_requirements(j@) is None && e.spec_kind()
                    == ErrorKind::Serialization,
            },
    {
        match j {
            Json::Object(_) => {},
            _ => {
                return Err(malformed());
            },
        }
        let recommended = decode_resource_map_value(j, "recommended")?;
        let required = decode_resource_map_value(j, "required")?;
        let platforms = decode_text_list_value(j, "platforms")?;
        let environment = decode_text_list_value(j, "environment")?;
        Ok(Requirements { recommended, required, platforms, environment })
    }
}

impl FunctionInfo {
    /// The metadata a JSON value encodes; a serialization error where it is
    /// malformed.
    pub fn from_json_value(j: &Json) -> (r: Result<FunctionInfo, Error>)
        ensures
            match r {
                Ok(x) => decode_info(j@) == Some(info_view(x)) && x.wf(),
                Err(e) => decode_info(j@) is None && e.spec_kind() == ErrorKind::Serialization,
            },
    {
        match j {
            Json::Object(_) => {},
            _ => {
                return Err(malformed());
            },
        }
        let name = need_str(j, "name")?;
        let description = maybe_str(j, "description")?;
        let resources = match j.member("resources") {
            Some(res) => Requirements::from_json_value(res)?,
            None => {
                return Err(malformed());
            },
        };
        let routes = decode_routes_value(j, "routes")?;
        let metadata = decode_text_map_value(j, "metadata")?;
        Ok(FunctionInfo { name, description, resources, routes, metadata })
    }
}

fn texts_eq(a: &Vec<String>, b: &Vec<String>) -> (r: bool)
    ensures
        r == (texts(a@) == texts(b@)),
{
    if a.len() != b.len() {
        assert(texts(a@).len() != texts(b@).len());
        return false;
    }
    let mut i: usize = 0;
    while i < a.len()
        invariant
            i <= a@.len(),
            a@.len() == b@.len(),
            forall|j: int| 0 <= j < i ==> #[trigger] a@[j]@ == b@[j]@,
        decreases a.len() - i,
    {
        if !crate::strmap::text_eq(a[i].as_str(), b[i].as_str()) {
            assert(texts(a@)[i as int] != texts(b@)[i as int]);
            return false;
        }
        i = i + 1;
    }
    assert(texts(a@) =~= texts(b@));
    true
}

fn routes_eq(a: &Vec<RouteInfo>, b: &Vec<RouteInfo>) -> (r: bool)
    ensures
        r == (Seq::new(a@.len(), |i: int| route_view(a@[i])) == Seq::new(
            b@.len(),
            |i: int| route_view(b@[i]),
        )),
{
    let ghost va = Seq::new(a@.len(), |i: int| route_view(a@[i]));
    let ghost vb = Seq::new(b@.len(), |i: int| route_view(b@[i]));
    if a.len() != b.len() {
        assert(va.len() != vb.len());
        return false;
    }
    let mut i: usize = 0;
    while i < a.len()
        invariant
            i <= a@.len(),
            a@.len() == b@.len(),
            va == Seq::new(a@.len(), |i: int| route_view(a@[i])),
            vb == Seq::new(b@.len(), |i: int| route_view(b@[i])),
            forall|j: int| 0 <= j < i ==> #[trigger] va[j] == vb[j],
        decreases a.len() - i,
    {
        if !(a[i] == b[i]) {
            assert(va[i as int] != vb[i as int]);
            return false;
        }
        i = i + 1;
    }
    assert(va =~= vb);
    true
}

fn resource_maps_eq(a: &StrMap<Resource>, b: &StrMap<Resource>) -> (r: bool)
    ensures
        r == (resource_map_view(sorted_entries(a@)) == resource_map_view(sorted_entries(b@))),
{
    let pa = a.sorted_positions();
    let pb = b.sorted_positions();
    let ghost sa = sorted_entries(a@);
    let ghost sb = sorted_entries(b@);
    let ghost va = resource_map_view(sa);
    let ghost vb = resource_map_view(sb);
    assert(sa.len() == pa@.len() && sb.len() == pb@.len());
    if pa.len() != pb.len() {
        assert(va.0.len() != vb.0.len());
        return false;
    }
    let mut i: usize = 0;
    while i < pa.len()
        invariant
            i <= pa@.len(),
            pa@.len() == pb@.len(),
            sa == at_positions(a@, pa@),
            sb == at_positions(b@, pb@),
            sa == sorted_entries(a@),
            sb == sorted_entries(b@),
            va == resource_map_view(sa),
            vb == resource_map_view(sb),
            forall|q: int| 0 <= q < pa@.len() ==> #[trigger] pa@[q] < a@.len(),
            forall|q: int| 0 <= q < pb@.len() ==> #[trigger] pb@[q] < b@.len(),
            forall|j: int| 0 <= j < i ==> #[trigger] va.0[j] == vb.0[j],
            forall|j: int| 0 <= j < i ==> #[trigger] va.1[j] == vb.1[j],
        decreases pa.len() - i,
    {
        if !crate::strmap::text_eq(a.key_at(pa[i]).as_str(), b.key_at(pb[i]).as_str()) {
            assert(va.0[i as int] != vb.0[i as int]);
            return false;
        }
        if !(*a.value_at(pa[i]) == *b.value_at(pb[i])) {
            assert(va.1[i as int] != vb.1[i as int]);
            return false;
        }
        assert(va.0[i as int] == vb.0[i as int]);
        assert(va.1[i as int] == vb.1[i as int]);
        i = i + 1;
    }
    assert(va.0 =~= vb.0);
    assert(va.1 =~= vb.1);
    true
}

/// The texts of a string map's entries, by increasing key.
pub open spec fn sorted_texts(m: Seq<(String, String)>) -> (Seq<Seq<char>>, Seq<Seq<char>>) {
    (text_keys(sorted_entries(m)), text_vals(sorted_entries(m)))
}

fn text_maps_eq(a: &StrMap<String>, b: &StrMap<String>) -> (r: bool)
    ensures
        r == (sorted_texts(a@) == sorted_texts(b@)),
{
    let pa = a.sorted_positions();
    let pb = b.sorted_positions();
    let ghost sa = sorted_entries(a@);
    let ghost sb = sorted_entries(b@);
    assert(sa.len() == pa@.len() && sb.len() == pb@.len());
    if pa.len() != pb.len() {
        assert(text_keys(sa).len() != text_keys(sb).len());
        return false;
    }
    let mut i: usize = 0;
    while i < pa.len()
        invariant
            i <= pa@.len(),
            pa@.len() == pb@.len(),
            sa == at_positions(a@, pa@),
            sb == at_positions(b@, pb@),
            sa == sorted_entries(a@),
            sb == sorted_entries(b@),
            forall|q: int| 0 <= q < pa@.len() ==> #[trigger] pa@[q] < a@.len(),
            forall|q: int| 0 <= q < pb@.len() ==> #[trigger] pb@[q] < b@.len(),
            forall|j: int| 0 <= j < i ==> #[trigger] text_keys(sa)[j] == text_keys(sb)[j],
            forall|j: int| 0 <= j < i ==> #[trigger] text_vals(sa)[j] == text_vals(sb)[j],
        decreases pa.len() - i,
    {
        if !crate::strmap::text_eq(a.key_at(pa[i]).as_str(), b.key_at(pb[i]).as_str()) {
            assert(text_keys(sa)[i as int] != text_keys(sb)[i as int]);
            return false;
        }
        if !crate::strmap::text_eq(a.value_at(pa[i]).as_str(), b.value_at(pb[i]).as_str()) {
            assert(text_vals(sa)[i as int] != text_vals(sb)[i as int]);
            return false;
        }
        assert(text_keys(sa)[i as int] == text_keys(sb)[i as int]);
        assert(text_vals(sa)[i as int] == text_vals(sb)[i as int]);
        i = i + 1;
    }
    assert(text_keys(sa) =~= text_keys(sb));
    assert(text_vals(sa) =~= text_vals(sb));
    true
}

/// What requirements hold, with each resource map listed by increasing key:
/// equal for requirements with the same content, whatever the insertion order.
pub open spec fn requirements_content(r: Requirements) -> RequirementsV {
    RequirementsV {
        recommended: resource_map_view(sorted_entries(r.recommended@)),
        required: resource_map_view(sorted_entries(r.required@)),
        platforms: texts(r.platforms@),
        environment: texts(r.environment@),
    }
}

/// What metadata holds, with each map listed by increasing key.
pub open spec fn info_content(x: FunctionInfo) -> InfoV {
    InfoV {
        name: x.name@,
        description: opt_text(x.description),
        resources: requirements_content(x.resources),
        routes: Seq::new(x.routes@.len(), |i: int| route_view(x.routes@[i])),
        metadata: sorted_texts(x.metadata@),
    }
}

impl PartialEq for Requirements {
    fn eq(&self, other: &Requirements) -> (r: bool)
        ensures
            r == (requirements_content(*self) == requirements_content(*other)),
    {
        resource_maps_eq(&self.recommended, &other.recommended) && resource_maps_eq(
            &self.required,
            &other.required,
        ) && texts_eq(&self.platforms, &other.platforms) && texts_eq(
            &self.environment,
            &other.environment,
        )
    }
}

impl vstd::std_specs::cmp::PartialEqSpecImpl for Requirements {
    open spec fn obeys_eq_spec() -> bool {
        true
    }

    open spec fn eq_spec(&self, other: &Requirements) -> bool {
        requirements_content(*self) == requirements_content(*other)
    }
}

impl PartialEq for FunctionInfo {
    fn eq(&self, other: &FunctionInfo) -> (r: bool)
        ensures
            r == (info_content(*self) == info_content(*other)),
    {
        crate::strmap::text_eq(self.name.as_str(), other.name.as_str())
            && crate::requirements::opt_text_eq(&self.description, &other.description)
            && self.resources == other.resources && routes_eq(&self.routes, &other.routes)
            && text_maps_eq(&self.metadata, &other.metadata)
    }
}

impl vstd::std_specs::cmp::PartialEqSpecImpl for FunctionInfo {
    open spec fn obeys_eq_spec() -> bool {
        true
    }

    open spec fn eq_spec(&self, other: &FunctionInfo) -> bool {
        info_content(*self) == info_content(*other)
    }
}

} // verus!
