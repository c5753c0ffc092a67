use crate::json::{
    decode_all, field_of, get_field, get_string, lemma_decode_all_fails, lemma_decode_all_step,
    parse_json, parsed_json, string_of, Json,
};
use crate::types::{
    marks_view, strings_view, FetchError, Mark, MarkList, MarkListView, MarkView, Response,
    ResponseView, WorkList, WorkListView,
};
use vstd::prelude::*;

verus! {

/// The items of the array field `key`.
pub open spec fn array_field(fields: Seq<(String, Json)>, key: Seq<char>) -> Option<Seq<Json>> {
    match field_of(fields, key) {
        Some(Json::Array(a)) => Some(a@),
        _ => None,
    }
}

/// Every field of an object holds a string.
pub open spec fn all_strings(fields: Seq<(String, Json)>) -> bool {
    forall|i: int| 0 <= i < fields.len() ==> #[trigger] fields[i].1 is Str
}

/// The alias held by a `by` field: an object whose fields all hold strings, one of them
/// named `alias`.
pub open spec fn placed_by_of(fields: Seq<(String, Json)>) -> Option<Seq<char>> {
    match field_of(fields, "by"@) {
        Some(Json::Object(inner)) => if all_strings(inner@) {
            string_of(field_of(inner@, "alias"@))
        } else {
            None
        },
        _ => None,
    }
}

/// A mark: an object with string fields `name` and `comment`, and `by` as above.
pub open spec fn mark_of(j: Json) -> Option<MarkView> {
    match j {
        Json::Object(fs) => {
            let name = string_of(field_of(fs@, "name"@));
            let by = placed_by_of(fs@);
            let comment = string_of(field_of(fs@, "comment"@));
            if name is Some && by is Some && comment is Some {
                Some(MarkView { name: name->Some_0, by: by->Some_0, comment: comment->Some_0 })
            } else {
                None
            }
        },
        _ => None,
    }
}

pub open spec fn marks_of(items: Seq<Json>) -> Option<Seq<MarkView>> {
    decode_all(items, |j: Json| mark_of(j))
}

/// A mark list: an object with a string field `name` and an array of marks `marks`.
pub open spec fn mark_list_of(j: Json) -> Option<MarkListView> {
    match j {
        Json::Object(fs) => match (string_of(field_of(fs@, "name"@)), array_field(fs@, "marks"@)) {
            (Some(name), Some(items)) => match marks_of(items) {
                Some(marks) => Some(MarkListView { name, marks }),
                None => None,
            },
            _ => None,
        },
        _ => None,
    }
}

pub open spec fn mark_lists_of(items: Seq<Json>) -> Option<Seq<MarkListView>> {
    decode_all(items, |j: Json| mark_list_of(j))
}

/// An array of package names: every item a string.
pub open spec fn names_of(items: Seq<Json>) -> Option<Seq<Seq<char>>> {
    decode_all(items, |j: Json| string_of(Some(j)))
}

/// A work list: an object with a string field `alias` and an array of names `packages`.
pub open spec fn work_list_of(j: Json) -> Option<WorkListView> {
    match j {
        Json::Object(fs) => match (
            string_of(field_of(fs@, "alias"@)),
            array_field(fs@, "packages"@),
        ) {
            (Some(alias), Some(items)) => match names_of(items) {
                Some(packages) => Some(WorkListView { alias, packages }),
                None => None,
            },
            _ => None,
        },
        _ => None,
    }
}

pub open spec fn work_lists_of(items: Seq<Json>) -> Option<Seq<WorkListView>> {
    decode_all(items, |j: Json| work_list_of(j))
}

/// The assignment feed: an object with arrays `workList` and `markList`.
pub open spec fn feed_of(j: Json) -> Option<ResponseView> {
    match j {
        Json::Object(fs) => match (array_field(fs@, "workList"@), array_field(fs@, "markList"@)) {
            (Some(w), Some(m)) => match (work_lists_of(w), mark_lists_of(m)) {
                (Some(worklist), Some(marklist)) => Some(ResponseView { worklist, marklist }),
                _ => None,
            },
            _ => None,
        },
        _ => None,
    }
}

/// The feed that a response body holds, if it holds one.
pub open spec fn feed_of_body(body: Seq<u8>) -> Option<ResponseView> {
    match parsed_json(body) {
        Some(j) => feed_of(j),
        None => None,
    }
}

/// The mark list that a body holds, if it holds one.
pub open spec fn mark_list_of_body(body: Seq<u8>) -> Option<MarkListView> {
    match parsed_json(body) {
        Some(j) => mark_list_of(j),
        None => None,
    }
}

/// The items of the array field `key`.
fn get_array<'a>(fields: &'a Vec<(String, Json)>, key: &String) -> (r: Option<&'a Vec<Json>>)
    ensures
        match r {
            Some(a) => array_field(fields@, key@) == Some(a@),
            None => array_field(fields@, key@) is None,
        },
{
    match get_field(fields, key) {
        Some(Json::Array(a)) => Some(a),
        _ => None,
    }
}

/// Whether every field of an object holds a string.
fn fields_all_strings(fields: &Vec<(String, Json)>) -> (r: bool)
    ensures
        r == all_strings(fields@),
{
    let mut i: usize = 0;
    while i < fields.len()
        invariant
            i <= fields@.len(),
            forall|k: int| 0 <= k < i ==> #[trigger] fields@[k].1 is Str,
        decreases fields@.len() - i,
    {
        match &fields[i].1 {
            Json::Str(_) => {},
            _ => {
                return false;
            },
        }
        i += 1;
    }
    true
}

/// Decodes one mark, flattening its `by` object to the alias it holds.
pub fn decode_mark(j: &Json) -> (r: Option<Mark>)
    ensures
        match r {
            Some(m) => mark_of(*j) == Some(m@),
            None => mark_of(*j) is None,
        },
{
    match j {
        Json::Object(fs) => {
            let name = get_string(fs, &"name".to_owned());
            let by = match get_field(fs, &"by".to_owned()) {
                Some(Json::Object(inner)) => if fields_all_strings(inner) {
                    get_string(inner, &"alias".to_owned())
                } else {
                    None
                },
                _ => None,
            };
            let comment = get_string(fs, &"comment".to_owned());
            match (name, by, comment) {
                (Some(name), Some(by), Some(comment)) => Some(Mark { name, by, comment }),
                _ => None,
            }
        },
        _ => None,
    }
}

fn decode_marks(items: &Vec<Json>) -> (r: Option<Vec<Mark>>)
    ensures
        match r {
            Some(v) => marks_of(items@) == Some(marks_view(v@)),
            None => marks_of(items@) is None,
        },
{
    let ghost f = |j: Json| mark_of(j);
    let mut out: Vec<Mark> = Vec::new();
    let mut i: usize = 0;
    assert(items@.subrange(0, 0) =~= Seq::<Json>::empty());
    assert(marks_view(out@) =~= Seq::<MarkView>::empty());
    while i < items.len()
        invariant
            f == (|j: Json| mark_of(j)),
            i <= items@.len(),
            decode_all(items@.subrange(0, i as int), f) == Some(marks_view(out@)),
        decreases items@.len() - i,
    {
        proof {
            lemma_decode_all_step(items@, f, i as int);
        }
        match decode_mark(&items[i]) {
            Some(m) => {
                let ghost before = out@;
                out.push(m);
                assert(marks_view(out@) =~= marks_view(before).push(m@));
            },
            None => {
                proof {
                    lemma_decode_all_fails(items@, f, i + 1);
                }
                return None;
            },
        }
        i += 1;
    }
    assert(items@.subrange(0, i as int) =~= items@);
    Some(out)
}

fn decode_mark_list(j: &Json) -> (r: Option<MarkList>)
    ensures
        match r {
            Some(m) => mark_list_of(*j) == Some(m@),
            None => mark_list_of(*j) is None,
        },
{
    match j {
        Json::Object(fs) => {
            let name = get_string(fs, &"name".to_owned());
            let items = get_array(fs, &"marks".to_owned());
            match (name, items) {
                (Some(name), Some(items)) => match decode_marks(items) {
                    Some(marks) => Some(MarkList { name, marks }),
                    None => None,
                },
                _ => None,
            }
        },
        _ => None,
    }
}

fn decode_mark_lists(items: &Vec<Json>) -> (r: Option<Vec<MarkList>>)
    ensures
        match r {
            Some(v) => mark_lists_of(items@) == Some(v@.map_values(|m: MarkList| m@)),
            None => mark_lists_of(items@) is None,
        },
{
    let ghost f = |j: Json| mark_list_of(j);
    let mut out: Vec<MarkList> = Vec::new();
    let mut i: usize = 0;
    assert(items@.subrange(0, 0) =~= Seq::<Json>::empty());
    assert(out@.map_values(|m: MarkList| m@) =~= Seq::<MarkListView>::empty());
    while i < items.len()
        invariant
            f == (|j: Json| mark_list_of(j)),
            i <= items@.len(),
            decode_all(items@.subrange(0, i as int), f) == Some(
                out@.map_values(|m: MarkList| m@),
            ),
        decreases items@.len() - i,
    {
        proof {
            lemma_decode_all_step(items@, f, i as int);
        }
        match decode_mark_list(&items[i]) {
            Some(m) => {
                let ghost before = out@;
                let ghost mv = m@;
                out.push(m);
                assert(out@.map_values(|m: MarkList| m@) =~= before.map_values(
                    |m: MarkList| m@,
                ).push(mv));
            },
            None => {
                proof {
                    lemma_decode_all_fails(items@, f, i + 1);
                }
                return None;
            },
        }
        i += 1;
    }
    assert(items@.subrange(0, i as int) =~= items@);
    Some(out)
}

fn decode_names(items: &Vec<Json>) -> (r: Option<Vec<String>>)
    ensures
        match r {
            Some(v) => names_of(items@) == Some(strings_view(v@)),
            None => names_of(items@) is None,
        },
{
    let ghost f = |j: Json| string_of(Some(j));
    let mut out: Vec<String> = Vec::new();
    let mut i: usize = 0;
    assert(items@.subrange(0, 0) =~= Seq::<Json>::empty());
    assert(strings_view(out@) =~= Seq::<Seq<char>>::empty());
    while i < items.len()
        invariant
            f == (|j: Json| string_of(Some(j))),
            i <= items@.len(),
            decode_all(items@.subrange(0, i as int), f) == Some(strings_view(out@)),
        decreases items@.len() - i,
    {
        proof {
            lemma_decode_all_step(items@, f, i as int);
        }
        match &items[i] {
            Json::Str(s) => {
                let ghost before = out@;
                out.push(s.clone());
                assert(strings_view(out@) =~= strings_view(before).push(s@));
            },
            _ => {
                proof {
                    lemma_decode_all_fails(items@, f, i + 1);
                }
                return None;
            },
        }
        i += 1;
    }
    assert(items@.subrange(0, i as int) =~= items@);
    Some(out)
}

fn decode_work_list(j: &Json) -> (r: Option<WorkList>)
    ensures
        match r {
            Some(w) => work_list_of(*j) == Some(w@),
            None => work_list_of(*j) is None,
        },
{
    match j {
        Json::Object(fs) => {
            let alias = get_string(fs, &"alias".to_owned());
            let items = get_array(fs, &"packages".to_owned());
            match (alias, items) {
                (Some(alias), Some(items)) => match decode_names(items) {
                    Some(packages) => Some(WorkList { alias, packages }),
                    None => None,
                },
                _ => None,
            }
        },
        _ => None,
    }
}

fn decode_work_lists(items: &Vec<Json>) -> (r: Option<Vec<WorkList>>)
    ensures
        match r {
            Some(v) => work_lists_of(items@) == Some(v@.map_values(|w: WorkList| w@)),
            None => work_lists_of(items@) is None,
        },
{
    let ghost f = |j: Json| work_list_of(j);
    let mut out: Vec<WorkList> = Vec::new();
    let mut i: usize = 0;
    assert(items@.subrange(0, 0) =~= Seq::<Json>::empty());
    assert(out@.map_values(|w: WorkList| w@) =~= Seq::<WorkListView>::empty());
    while i < items.len()
        invariant
            f == (|j: Json| work_list_of(j)),
            i <= items@.len(),
            decode_all(items@.subrange(0, i as int), f) == Some(
                out@.map_values(|w: WorkList| w@),
            ),
        decreases items@.len() - i,
    {
        proof {
            lemma_decode_all_step(items@, f, i as int);
        }
        match decode_work_list(&items[i]) {
            Some(w) => {
                let ghost before = out@;
                let ghost wv = w@;
                out.push(w);
                assert(out@.map_values(|w: WorkList| w@) =~= before.map_values(
                    |w: WorkList| w@,
                ).push(wv));
            },
            None => {
                proof {
                    lemma_decode_all_fails(items@, f, i + 1);
                }
                return None;
            },
        }
        i += 1;
    }
    assert(items@.subrange(0, i as int) =~= items@);
    Some(out)
}

impl Response {
    /// Reads the feed out of a JSON document; `Decode` when the document does not have
    /// the feed's shape.
    pub fn from_json(j: &Json) -> (r: Result<Response, FetchError>)
        ensures
            match r {
                Ok(resp) => feed_of(*j) == Some(resp@),
                Err(e) => e == FetchError::Decode && feed_of(*j) is None,
            },
    {
        match j {
            Json::Object(fs) => {
                let w = get_array(fs, &"workList".to_owned());
                let m = get_array(fs, &"markList".to_owned());
                match (w, m) {
                    (Some(w), Some(m)) => match (decode_work_lists(w), decode_mark_lists(m)) {
                        (Some(worklist), Some(marklist)) => Ok(Response { worklist, marklist }),
                        _ => Err(FetchError::Decode),
                    },
                    _ => Err(FetchError::Decode),
                }
            },
            _ => Err(FetchError::Decode),
        }
    }

    /// Decodes a response body of the assignment service; `Decode` when it is not JSON
    /// or not of the feed's shape.
    pub fn decode(body: &[u8]) -> (r: Result<Response, FetchError>)
        ensures
            match r {
                Ok(resp) => feed_of_body(body@) == Some(resp@),
                Err(e) => e == FetchError::Decode && feed_of_body(body@) is None,
            },
    {
        match parse_json(body) {
            Some(j) => Response::from_json(&j),
            None => Err(FetchError::Decode),
        }
    }
}

impl MarkList {
    /// Reads one mark list out of a JSON document; `Decode` when it has another shape.
    pub fn from_json(j: &Json) -> (r: Result<MarkList, FetchError>)
        ensures
            match r {
                Ok(m) => mark_list_of(*j) == Some(m@),
                Err(e) => e == FetchError::Decode && mark_list_of(*j) is None,
            },
    {
        match decode_mark_list(j) {
            Some(m) => Ok(m),
            None => Err(FetchError::Decode),
        }
    }

    /// Decodes one mark list from JSON text; `Decode` when it is not JSON or has another shape.
    pub fn decode(body: &[u8]) -> (r: Result<MarkList, FetchError>)
        ensures
            match r {
                Ok(m) => mark_list_of_body(body@) == Some(m@),
                Err(e) => e == FetchError::Decode && mark_list_of_body(body@) is None,
            },
    {
        match parse_json(body) {
            Some(j) => MarkList::from_json(&j),
            None => Err(FetchError::Decode),
        }
    }
}

} // verus!
