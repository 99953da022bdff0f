//! Picking the row asked for out of what a query returned.
use vstd::prelude::*;
use vstd::view::View as _;
use crate::model::{Pin, Project, View};

verus! {

/// The first view with id `id`.
pub fn find_view_by_id(rows: &Vec<View>, id: i64) -> (r: Option<usize>)
    ensures
        r is None <==> forall|j: int| 0 <= j < rows@.len() ==> rows@[j].id != id,
        r matches Some(i) ==> i < rows@.len() && rows@[i as int].id == id && forall|j: int|
            0 <= j < i ==> rows@[j].id != id,
{
    let mut k: usize = 0;
    while k < rows.len()
        invariant
            k <= rows@.len(),
            forall|j: int| 0 <= j < k ==> rows@[j].id != id,
        decreases rows.len() - k,
    {
        if rows[k].id == id {
            return Some(k);
        }
        k += 1;
    }
    None
}

/// The first view of project `project_id` named `name`.
pub fn find_view_by_name(rows: &Vec<View>, project_id: i64, name: &String) -> (r: Option<usize>)
    ensures
        r is None <==> forall|j: int|
            0 <= j < rows@.len() ==> !(rows@[j].project_id == project_id && rows@[j].name@ == name@),
        r matches Some(i) ==> i < rows@.len() && rows@[i as int].project_id == project_id
            && rows@[i as int].name@ == name@ && forall|j: int|
            0 <= j < i ==> !(rows@[j].project_id == project_id && rows@[j].name@ == name@),
{
    let mut k: usize = 0;
    while k < rows.len()
        invariant
            k <= rows@.len(),
            forall|j: int|
                0 <= j < k ==> !(rows@[j].project_id == project_id && rows@[j].name@ == name@),
        decreases rows.len() - k,
    {
        if rows[k].project_id == project_id && rows[k].name == *name {
            return Some(k);
        }
        k += 1;
    }
    None
}

/// The first project with id `id`.
pub fn find_project_by_id(rows: &Vec<Project>, id: i64) -> (r: Option<usize>)
    ensures
        r is None <==> forall|j: int| 0 <= j < rows@.len() ==> rows@[j].id != id,
        r matches Some(i) ==> i < rows@.len() && rows@[i as int].id == id && forall|j: int|
            0 <= j < i ==> rows@[j].id != id,
{
    let mut k: usize = 0;
    while k < rows.len()
        invariant
            k <= rows@.len(),
            forall|j: int| 0 <= j < k ==> rows@[j].id != id,
        decreases rows.len() - k,
    {
        if rows[k].id == id {
            return Some(k);
        }
        k += 1;
    }
    None
}

/// The first project named `name`.
pub fn find_project_by_name(rows: &Vec<Project>, name: &String) -> (r: Option<usize>)
    ensures
        r is None <==> forall|j: int| 0 <= j < rows@.len() ==> rows@[j].name@ != name@,
        r matches Some(i) ==> i < rows@.len() && rows@[i as int].name@ == name@ && forall|j: int|
            0 <= j < i ==> rows@[j].name@ != name@,
{
    let mut k: usize = 0;
    while k < rows.len()
        invariant
            k <= rows@.len(),
            forall|j: int| 0 <= j < k ==> rows@[j].name@ != name@,
        decreases rows.len() - k,
    {
        if rows[k].name == *name {
            return Some(k);
        }
        k += 1;
    }
    None
}

/// The first pin with key `key`.
pub fn find_pin_by_key(rows: &Vec<Pin>, key: &String) -> (r: Option<usize>)
    ensures
        r is None <==> forall|j: int| 0 <= j < rows@.len() ==> rows@[j].key@ != key@,
        r matches Some(i) ==> i < rows@.len() && rows@[i as int].key@ == key@ && forall|j: int|
            0 <= j < i ==> rows@[j].key@ != key@,
{
    let mut k: usize = 0;
    while k < rows.len()
        invariant
            k <= rows@.len(),
            forall|j: int| 0 <= j < k ==> rows@[j].key@ != key@,
        decreases rows.len() - k,
    {
        if rows[k].key == *key {
            return Some(k);
        }
        k += 1;
    }
    None
}

/// The first pin that points at view `view_id`.
pub fn find_pin_by_view(rows: &Vec<Pin>, view_id: i64) -> (r: Option<usize>)
    ensures
        r is None <==> forall|j: int| 0 <= j < rows@.len() ==> rows@[j].view_id != view_id,
        r matches Some(i) ==> i < rows@.len() && rows@[i as int].view_id == view_id && forall|j: int|
            0 <= j < i ==> rows@[j].view_id != view_id,
{
    let mut k: usize = 0;
    while k < rows.len()
        invariant
            k <= rows@.len(),
            forall|j: int| 0 <= j < k ==> rows@[j].view_id != view_id,
        decreases rows.len() - k,
    {
        if rows[k].view_id == view_id {
            return Some(k);
        }
        k += 1;
    }
    None
}

/// Row `p` is the first pin with key `key`.
pub open spec fn first_pin_with_key(pins: Seq<Pin>, key: Seq<char>, p: int) -> bool {
    &&& 0 <= p < pins.len()
    &&& pins[p].key@ == key
    &&& forall|j: int| 0 <= j < p ==> pins[j].key@ != key
}

/// Row `i` is the first view with id `id`.
pub open spec fn first_view_with_id(views: Seq<View>, id: i64, i: int) -> bool {
    &&& 0 <= i < views.len()
    &&& views[i].id == id
    &&& forall|j: int| 0 <= j < i ==> views[j].id != id
}

/// Row `i` of `views` is the first view with the id that the first pin with
/// key `key` points at.
pub open spec fn pin_view_pick(pins: Seq<Pin>, key: Seq<char>, views: Seq<View>, i: int) -> bool {
    exists|p: int| first_pin_with_key(pins, key, p) && first_view_with_id(views, pins[p].view_id, i)
}

/// Row `i` is the first pin that points at view `view_id`.
pub open spec fn first_pin_for_view(pins: Seq<Pin>, view_id: i64, i: int) -> bool {
    &&& 0 <= i < pins.len()
    &&& pins[i].view_id == view_id
    &&& forall|j: int| 0 <= j < i ==> pins[j].view_id != view_id
}

/// The view that the first pin with key `key` points at, among `views`.
pub fn view_for_pin(pins: &Vec<Pin>, key: &String, views: &Vec<View>) -> (r: Option<usize>)
    ensures
        match r {
            Some(i) => pin_view_pick(pins@, key@, views@, i as int),
            None => forall|i: int| !pin_view_pick(pins@, key@, views@, i),
        },
{
    match find_pin_by_key(pins, key) {
        None => None,
        Some(p) => {
            let r = find_view_by_id(views, pins[p].view_id);
            proof {
                assert(first_pin_with_key(pins@, key@, p as int));
                assert forall|q: int| first_pin_with_key(pins@, key@, q) implies q == p by {
                    if q < p {
                        assert(pins@[q].key@ != key@);
                    } else if q > p {
                        assert(pins@[p as int].key@ != key@);
                    }
                }
            }
            r
        },
    }
}

} // verus!
