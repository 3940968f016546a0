//! Owned entities (items and clothes), lookups that respect ownership, and
//! where an entity's image is stored.
use vstd::prelude::*;
use crate::search::{first_index, lemma_first_index, lemma_first_index_at};
use crate::text::{chars_of, decimal, push_decimal, string_of};

verus! {

/// A row of the item table.
#[derive(Debug)]
pub struct Item {
    pub id: i32,
    pub user_id: i32,
    pub item_name: String,
}

/// An item as reported to its owner, with its use count.
#[derive(Debug)]
pub struct ItemOut {
    pub id: i32,
    pub user_id: i32,
    pub item_name: String,
    pub count: i32,
}

/// A row of the clothes table.
#[derive(Debug)]
pub struct Cloth {
    pub id: i32,
    pub user_id: i32,
    pub cloth_name: String,
}

/// A cloth as reported to its owner, with its wear count.
#[derive(Debug)]
pub struct ClothOut {
    pub id: i32,
    pub user_id: i32,
    pub cloth_name: String,
    pub count: i32,
}

/// The index of the first item with id `id` owned by `owner`, if any.
pub open spec fn owned_item_index(rows: Seq<Item>, id: i32, owner: i32) -> Option<int> {
    first_index(|i: int| rows[i].id == id && rows[i].user_id == owner, rows.len() as int)
}

/// The index of the first cloth with id `id` owned by `owner`, if any.
pub open spec fn owned_cloth_index(rows: Seq<Cloth>, id: i32, owner: i32) -> Option<int> {
    first_index(|i: int| rows[i].id == id && rows[i].user_id == owner, rows.len() as int)
}

/// The position of item `id` among `rows` when `owner` owns it; `None`
/// when no such item is `owner`'s, whoever else owns one with that id.
pub fn find_owned_item(rows: &Vec<Item>, id: i32, owner: i32) -> (r: Option<usize>)
    ensures
        r is None <==> owned_item_index(rows@, id, owner) is None,
        r matches Some(i) ==> owned_item_index(rows@, id, owner) == Some(i as int),
{
    let mut i: usize = 0;
    while i < rows.len()
        invariant
            i <= rows@.len(),
            forall|j: int| 0 <= j < i ==> !(rows@[j].id == id && rows@[j].user_id == owner),
        decreases rows@.len() - i,
    {
        if rows[i].id == id && rows[i].user_id == owner {
            proof {
                lemma_first_index_at(
                    |k: int| rows@[k].id == id && rows@[k].user_id == owner,
                    rows@.len() as int,
                    i as int,
                );
            }
            return Some(i);
        }
        i = i + 1;
    }
    proof {
        lemma_first_index(|k: int| rows@[k].id == id && rows@[k].user_id == owner, rows@.len() as int);
    }
    None
}

/// The position of cloth `id` among `rows` when `owner` owns it; `None`
/// when no such cloth is `owner`'s, whoever else owns one with that id.
pub fn find_owned_cloth(rows: &Vec<Cloth>, id: i32, owner: i32) -> (r: Option<usize>)
    ensures
        r is None <==> owned_cloth_index(rows@, id, owner) is None,
        r matches Some(i) ==> owned_cloth_index(rows@, id, owner) == Some(i as int),
{
    let mut i: usize = 0;
    while i < rows.len()
        invariant
            i <= rows@.len(),
            forall|j: int| 0 <= j < i ==> !(rows@[j].id == id && rows@[j].user_id == owner),
        decreases rows@.len() - i,
    {
        if rows[i].id == id && rows[i].user_id == owner {
            proof {
                lemma_first_index_at(
                    |k: int| rows@[k].id == id && rows@[k].user_id == owner,
                    rows@.len() as int,
                    i as int,
                );
            }
            return Some(i);
        }
        i = i + 1;
    }
    proof {
        lemma_first_index(|k: int| rows@[k].id == id && rows@[k].user_id == owner, rows@.len() as int);
    }
    None
}

/// Whoever asks for an entity by id, only an entity of their own is found:
/// where no item with that id belongs to `owner`, the lookup finds nothing,
/// and what it finds always belongs to `owner`.
pub proof fn lemma_ownership_isolation(rows: Seq<Item>, id: i32, owner: i32)
    ensures
        (forall|i: int| 0 <= i < rows.len() && rows[i].id == id ==> rows[i].user_id != owner)
            ==> owned_item_index(rows, id, owner) is None,
        owned_item_index(rows, id, owner) matches Some(i) ==> 0 <= i < rows.len() && rows[i].id
            == id && rows[i].user_id == owner,
{
    lemma_first_index(|k: int| rows[k].id == id && rows[k].user_id == owner, rows.len() as int);
}

/// The use count as the database reports it, read as an `i32`.
pub open spec fn count_of(n: i64) -> i32 {
    n as i32
}

/// The report of `item` with `count` recorded uses.
pub fn item_out(item: &Item, uses: i64) -> (r: ItemOut)
    ensures
        r.id == item.id,
        r.user_id == item.user_id,
        r.item_name@ == item.item_name@,
        r.count == count_of(uses),
{
    ItemOut {
        id: item.id,
        user_id: item.user_id,
        item_name: item.item_name.clone(),
        count: uses as i32,
    }
}

/// The report of `cloth` with `count` recorded wears.
pub fn cloth_out(cloth: &Cloth, wears: i64) -> (r: ClothOut)
    ensures
        r.id == cloth.id,
        r.user_id == cloth.user_id,
        r.cloth_name@ == cloth.cloth_name@,
        r.count == count_of(wears),
{
    ClothOut {
        id: cloth.id,
        user_id: cloth.user_id,
        cloth_name: cloth.cloth_name.clone(),
        count: wears as i32,
    }
}

/// The inventory movement recorded when an item is created: the given
/// count, or one.
pub fn initial_movement(count: Option<i32>) -> (r: i32)
    ensures
        r == match count {
            Some(c) => c,
            None => 1i32,
        },
{
    match count {
        Some(c) => c,
        None => 1,
    }
}

/// The name an entity has after an edit: the new one if given, else the
/// current one.
pub fn edited_name(new_name: Option<String>, current: &String) -> (r: String)
    ensures
        r@ == match new_name {
            Some(n) => n@,
            None => current@,
        },
{
    match new_name {
        Some(n) => n,
        None => current.clone(),
    }
}

/// The reports of `items`, the `i`-th with `counts[i]` uses.
pub fn items_out(items: &Vec<Item>, counts: &Vec<i64>) -> (r: Vec<ItemOut>)
    requires
        items@.len() == counts@.len(),
    ensures
        r@.len() == items@.len(),
        forall|i: int|
            0 <= i < r@.len() ==> {
                &&& (#[trigger] r@[i]).id == items@[i].id
                &&& r@[i].user_id == items@[i].user_id
                &&& r@[i].item_name@ == items@[i].item_name@
                &&& r@[i].count == count_of(counts@[i])
            },
{
    let mut r: Vec<ItemOut> = Vec::new();
    let mut i: usize = 0;
    while i < items.len()
        invariant
            i <= items@.len(),
            items@.len() == counts@.len(),
            r@.len() == i,
            forall|j: int|
                0 <= j < i ==> {
                    &&& (#[trigger] r@[j]).id == items@[j].id
                    &&& r@[j].user_id == items@[j].user_id
                    &&& r@[j].item_name@ == items@[j].item_name@
                    &&& r@[j].count == count_of(counts@[j])
                },
        decreases items@.len() - i,
    {
        let out = item_out(&items[i], counts[i]);
        r.push(out);
        i = i + 1;
    }
    r
}

/// The decimal spelling of `n`, with a minus sign when it is negative.
pub open spec fn signed_decimal(n: int) -> Seq<char> {
    if n < 0 {
        seq!['-'] + decimal((-n) as nat)
    } else {
        decimal(n as nat)
    }
}

/// `name` placed in the directory `folder`: a separator is put between them
/// unless `folder` is empty or already ends in one.
pub open spec fn path_in(folder: Seq<char>, name: Seq<char>) -> Seq<char> {
    if folder.len() == 0 {
        name
    } else if folder.last() == '/' {
        folder + name
    } else {
        folder + seq!['/'] + name
    }
}

/// Where the image of the entity with id `id` is stored: a file named by
/// the id in the image folder.
pub fn image_path(folder: &str, id: i32) -> (r: String)
    ensures
        r@ == path_in(folder@, signed_decimal(id as int)),
{
    let mut out = chars_of(folder);
    if out.len() > 0 && out[out.len() - 1] != '/' {
        out.push('/');
    }
    let ghost start = out@;
    if id < 0 {
        out.push('-');
        let m: u64 = (-(id as i64)) as u64;
        push_decimal(&mut out, m);
    } else {
        push_decimal(&mut out, id as u64);
    }
    assert(out@ =~= path_in(folder@, signed_decimal(id as int)));
    string_of(&out)
}

} // verus!
