//! Reading the remote API's JSON bodies into plain module data.
//!
//! The transport hands over each response body as text. The body is parsed
//! with serde_json and walked here: a course's modules response must be a
//! JSON array of module objects, each carrying an `items` array; an item's
//! `title` and `html_url` strings are taken verbatim when present as
//! strings and left absent otherwise, so the aggregation can drop such
//! items. A body that is not well-formed JSON, or not of that structure,
//! fails the whole course with a distinct error.
//!
//! serde_json's view of a body is a function of the text alone, so each
//! call the walk makes carries a name for its result, and the two public
//! readers promise exactly the parse those names compose to: which bodies
//! succeed, which error comes back otherwise, and the precise records a
//! successful body yields.

use vstd::prelude::*;

use crate::listing::{ModuleData, PageEntry};

verus! {

/// Why a remote response body could not be taken as module data.
#[derive(Clone, Copy, Debug, PartialEq, Eq, Structural)]
pub enum ApiError {
    /// The body is not well-formed JSON.
    InvalidJson,
    /// The JSON is well-formed but not the expected structure: no module
    /// array, a module without an `items` array, or a user record without a
    /// numeric identifier.
    UnexpectedShape,
}

/// An item's two fields as the remote supplies them: title and link, each
/// absent when the item does not carry it as a string.
pub type ItemFields = (Option<Seq<char>>, Option<Seq<char>>);

#[verifier::external_type_specification]
#[verifier::external_body]
pub struct ExValue(serde_json::Value);

#[verifier::external_type_specification]
#[verifier::external_body]
pub struct ExJsonError(serde_json::Error);

/// What serde_json::from_str makes of a body: its value tree, or nothing
/// when the text is not well-formed JSON.
pub uninterp spec fn json_of(body: Seq<char>) -> Option<serde_json::Value>;

/// What serde_json::Value::as_array returns: the elements when the value is
/// a JSON array, nothing otherwise.
pub uninterp spec fn array_of(v: serde_json::Value) -> Option<Seq<serde_json::Value>>;

/// What serde_json::Value::get returns for a string key: the member under
/// that key when the value is a JSON object holding it, nothing otherwise.
pub uninterp spec fn member_of(v: serde_json::Value, key: Seq<char>) -> Option<
    serde_json::Value,
>;

/// What serde_json::Value::as_str returns: the characters when the value is
/// a JSON string, nothing otherwise.
pub uninterp spec fn str_of(v: serde_json::Value) -> Option<Seq<char>>;

/// What serde_json::Value::as_u64 returns: the number when the value is a
/// JSON integer representable as `u64`, nothing otherwise.
pub uninterp spec fn u64_of(v: serde_json::Value) -> Option<u64>;

/// Relies on serde_json::from_str: parses JSON text into a tree of values,
/// erring on malformed input. The outcome depends on the text alone, so it
/// carries the name `json_of`.
#[verifier::external_body]
fn parse_json(body: &str) -> (r: Result<serde_json::Value, serde_json::Error>)
    ensures
        match r {
            Ok(v) => json_of(body@) == Some(v),
            Err(_) => json_of(body@) is None,
        },
{
    serde_json::from_str(body)
}

/// Relies on serde_json::Value::as_array: the elements when the value is a
/// JSON array, nothing otherwise; named `array_of`.
#[verifier::external_body]
fn value_as_array(v: &serde_json::Value) -> (r: Option<&Vec<serde_json::Value>>)
    ensures
        match r {
            Some(a) => array_of(*v) == Some(a@),
            None => array_of(*v) is None,
        },
{
    v.as_array()
}

/// Relies on serde_json::Value::get: the member under a key when the value
/// is a JSON object holding that key, nothing otherwise; named `member_of`.
#[verifier::external_body]
fn value_get<'a>(v: &'a serde_json::Value, key: &str) -> (r: Option<&'a serde_json::Value>)
    ensures
        match r {
            Some(m) => member_of(*v, key@) == Some(*m),
            None => member_of(*v, key@) is None,
        },
{
    v.get(key)
}

/// Relies on serde_json::Value::as_str: the characters when the value is a
/// JSON string, nothing otherwise; named `str_of`.
#[verifier::external_body]
fn value_as_str(v: &serde_json::Value) -> (r: Option<&str>)
    ensures
        match r {
            Some(s) => str_of(*v) == Some(s@),
            None => str_of(*v) is None,
        },
{
    v.as_str()
}

/// Relies on serde_json::Value::as_u64: the number when the value is a JSON
/// integer representable as `u64`, nothing otherwise; named `u64_of`.
#[verifier::external_body]
fn value_as_u64(v: &serde_json::Value) -> (r: Option<u64>)
    ensures
        r == u64_of(*v),
{
    v.as_u64()
}

/// An object's member under a key, taken when it is present as a string.
pub open spec fn string_member_of(v: serde_json::Value, key: Seq<char>) -> Option<Seq<char>> {
    match member_of(v, key) {
        Some(f) => str_of(f),
        None => None,
    }
}

/// The two fields of one item object: its `title` and `html_url` strings,
/// each absent when not present as a string.
pub open spec fn item_parse_of(v: serde_json::Value) -> ItemFields {
    (string_member_of(v, "title"@), string_member_of(v, "html_url"@))
}

/// The fields of each item object, in order.
pub open spec fn items_parse_of(items: Seq<serde_json::Value>) -> Seq<ItemFields> {
    items.map_values(|v: serde_json::Value| item_parse_of(v))
}

/// One module object's items: the parse of its `items` array, or nothing
/// when the object has no such array.
pub open spec fn module_parse_of(v: serde_json::Value) -> Option<Seq<ItemFields>> {
    match member_of(v, "items"@) {
        Some(iv) => match array_of(iv) {
            Some(a) => Some(items_parse_of(a)),
            None => None,
        },
        None => None,
    }
}

/// The parse of a sequence of module objects, in order; the first module
/// without an `items` array fails the whole sequence.
pub open spec fn modules_parse_of(mods: Seq<serde_json::Value>) -> Result<
    Seq<Seq<ItemFields>>,
    ApiError,
>
    decreases mods.len(),
{
    if mods.len() == 0 {
        Ok(Seq::empty())
    } else {
        match module_parse_of(mods.first()) {
            None => Err(ApiError::UnexpectedShape),
            Some(items) => match modules_parse_of(mods.drop_first()) {
                Ok(rest) => Ok(seq![items] + rest),
                Err(e) => Err(e),
            },
        }
    }
}

/// What a course's modules response body parses to: malformed text is
/// `InvalidJson`, a body that is not an array of module objects with
/// embedded `items` arrays is `UnexpectedShape`, and a well-shaped body is
/// each module's item fields, in order.
pub open spec fn course_parse_of(body: Seq<char>) -> Result<Seq<Seq<ItemFields>>, ApiError> {
    match json_of(body) {
        None => Err(ApiError::InvalidJson),
        Some(v) => match array_of(v) {
            None => Err(ApiError::UnexpectedShape),
            Some(mods) => modules_parse_of(mods),
        },
    }
}

/// What the authenticated-user response body parses to: malformed text is
/// `InvalidJson`, a record without a numeric `id` is `UnexpectedShape`, and
/// otherwise exactly that identifier.
pub open spec fn user_parse_of(body: Seq<char>) -> Result<u64, ApiError> {
    match json_of(body) {
        None => Err(ApiError::InvalidJson),
        Some(v) => match member_of(v, "id"@) {
            None => Err(ApiError::UnexpectedShape),
            Some(f) => match u64_of(f) {
                Some(n) => Ok(n),
                None => Err(ApiError::UnexpectedShape),
            },
        },
    }
}

/// One item's fields as plain values.
pub open spec fn entry_view(e: PageEntry) -> ItemFields {
    (
        match e.title {
            Some(t) => Some(t@),
            None => None,
        },
        match e.link {
            Some(l) => Some(l@),
            None => None,
        },
    )
}

/// The fields of a sequence of items, in order.
pub open spec fn entries_view(es: Seq<PageEntry>) -> Seq<ItemFields> {
    es.map_values(|e: PageEntry| entry_view(e))
}

/// One module's records as plain values.
pub open spec fn module_view(m: ModuleData) -> Seq<ItemFields> {
    entries_view(m.items@)
}

/// The records of a sequence of modules, in order.
pub open spec fn modules_view(ms: Seq<ModuleData>) -> Seq<Seq<ItemFields>> {
    ms.map_values(|m: ModuleData| module_view(m))
}

/// Takes an item object's field under `key` when it is present as a string.
fn string_field(item: &serde_json::Value, key: &str) -> (r: Option<String>)
    ensures
        string_member_of(*item, key@) == (match r {
            Some(s) => Some(s@),
            None => None::<Seq<char>>,
        }),
{
    match value_get(item, key) {
        Some(v) => match value_as_str(v) {
            Some(s) => Some(s.to_owned()),
            None => None,
        },
        None => None,
    }
}

/// Reads one course's modules response body: exactly the parse the body's
/// text determines. A malformed body is `InvalidJson`, one that is not an
/// array of module objects with `items` arrays is `UnexpectedShape`, and a
/// well-shaped body yields every module's items in order, with `title` and
/// `html_url` taken verbatim when present as strings and absent otherwise.
pub fn parse_course_response(body: &str) -> (r: Result<Vec<ModuleData>, ApiError>)
    ensures
        course_parse_of(body@) == (match r {
            Ok(ms) => Ok::<Seq<Seq<ItemFields>>, ApiError>(modules_view(ms@)),
            Err(e) => Err::<Seq<Seq<ItemFields>>, ApiError>(e),
        }),
{
    let parsed = match parse_json(body) {
        Ok(v) => v,
        Err(_) => {
            return Err(ApiError::InvalidJson);
        },
    };
    let modules = match value_as_array(&parsed) {
        Some(a) => a,
        None => {
            return Err(ApiError::UnexpectedShape);
        },
    };
    let ghost target = course_parse_of(body@);
    proof {
        assert(target == modules_parse_of(modules@));
    }
    let mut out: Vec<ModuleData> = Vec::new();
    let n = modules.len();
    let mut i: usize = 0;
    proof {
        assert(modules@.skip(0) =~= modules@);
        let mp0 = modules_parse_of(modules@);
        if mp0 is Ok {
            assert(modules_view(out@) + mp0->Ok_0 =~= mp0->Ok_0);
        }
    }
    while i < n
        invariant
            i <= n,
            n == modules@.len(),
            target == course_parse_of(body@),
            out@.len() == i,
            target == (match modules_parse_of(modules@.skip(i as int)) {
                Ok(rest) => Ok::<Seq<Seq<ItemFields>>, ApiError>(modules_view(out@) + rest),
                Err(e) => Err::<Seq<Seq<ItemFields>>, ApiError>(e),
            }),
        decreases n - i,
    {
        let module = &modules[i];
        let ghost suffix = modules@.skip(i as int);
        proof {
            assert(suffix.first() == modules@[i as int]);
        }
        let items_value = match value_get(module, "items") {
            Some(v) => v,
            None => {
                return Err(ApiError::UnexpectedShape);
            },
        };
        let items = match value_as_array(items_value) {
            Some(a) => a,
            None => {
                return Err(ApiError::UnexpectedShape);
            },
        };
        let mut entries: Vec<PageEntry> = Vec::new();
        let m = items.len();
        let mut j: usize = 0;
        proof {
            assert(items@.take(0) =~= Seq::<serde_json::Value>::empty());
            assert(entries_view(entries@) =~= items_parse_of(items@.take(0)));
        }
        while j < m
            invariant
                j <= m,
                m == items@.len(),
                entries_view(entries@) == items_parse_of(items@.take(j as int)),
            decreases m - j,
        {
            let item = &items[j];
            let title = string_field(item, "title");
            let link = string_field(item, "html_url");
            let entry = PageEntry { title, link };
            let ghost gentry = entry;
            let ghost before = entries@;
            entries.push(entry);
            proof {
                assert(entry_view(gentry) == item_parse_of(items@[j as int]));
                let taken = items@.take(j + 1);
                assert(taken.drop_last() =~= items@.take(j as int));
                assert(taken.last() == items@[j as int]);
                assert(items_parse_of(taken) =~= items_parse_of(items@.take(j as int)).push(
                    item_parse_of(items@[j as int]),
                ));
                assert(entries_view(entries@) =~= entries_view(before).push(entry_view(gentry)));
            }
            j += 1;
        }
        proof {
            assert(items@.take(m as int) =~= items@);
        }
        let module_data = ModuleData { items: entries };
        let ghost gmodule = module_data;
        let ghost out_before = out@;
        out.push(module_data);
        proof {
            assert(module_parse_of(modules@[i as int]) == Some(items_parse_of(items@)));
            assert(module_view(gmodule) == items_parse_of(items@));
            assert(suffix.drop_first() =~= modules@.skip(i + 1));
            assert(modules_view(out@) =~= modules_view(out_before).push(module_view(gmodule)));
            let mp_rest = modules_parse_of(modules@.skip(i + 1));
            if mp_rest is Ok {
                assert(modules_view(out_before) + (seq![module_view(gmodule)] + mp_rest->Ok_0)
                    =~= modules_view(out@) + mp_rest->Ok_0);
            }
        }
        i += 1;
    }
    proof {
        assert(modules@.skip(n as int) =~= Seq::<serde_json::Value>::empty());
        assert(modules_view(out@) + Seq::<Seq<ItemFields>>::empty() =~= modules_view(out@));
    }
    Ok(out)
}

/// Reads the authenticated-user response body: exactly the parse the
/// body's text determines. A malformed body is `InvalidJson`, a record
/// without a numeric `id` is `UnexpectedShape`, and otherwise the result is
/// that identifier.
pub fn parse_user_response(body: &str) -> (r: Result<u64, ApiError>)
    ensures
        r == user_parse_of(body@),
{
    let parsed = match parse_json(body) {
        Ok(v) => v,
        Err(_) => {
            return Err(ApiError::InvalidJson);
        },
    };
    match value_get(&parsed, "id") {
        Some(v) => match value_as_u64(v) {
            Some(n) => Ok(n),
            None => Err(ApiError::UnexpectedShape),
        },
        None => Err(ApiError::UnexpectedShape),
    }
}

} // verus!
