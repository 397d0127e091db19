//! The directory-entry model: which entries a listing shows, what each one
//! carries, and the order they are shown in.
use vstd::prelude::*;
use vstd::multiset::Multiset;
use crate::text::{
    ends_with, is_suffix, lemma_name_le_total, lemma_name_le_transitive, name_le, name_le_exec,
};

verus! {

/// Name for the text that `String::from_utf8_lossy` makes of some bytes.
pub uninterp spec fn lossy_text(b: Seq<u8>) -> Seq<char>;

/// Relies on `String::from_utf8_lossy`: the text depends on the bytes alone,
/// and no bytes give no text.
#[verifier::external_body]
pub(crate) fn decode_lossy(b: &Vec<u8>) -> (r: String)
    ensures
        r@ == lossy_text(b@),
        b@.len() == 0 ==> r@.len() == 0,
{
    String::from_utf8_lossy(b).into_owned()
}

/// What reading a directory reported of one of its entries. Each field is
/// `None` where it could not be read.
pub struct DirRecord {
    /// `None` when the name is not valid UTF-8.
    pub name: Option<String>,
    pub is_dir: Option<bool>,
    /// Size in bytes.
    pub size: Option<u64>,
    /// Creation time in seconds since the epoch; `None` where the
    /// filesystem records none.
    pub created: Option<u64>,
    /// The entry's `description` attribute, if it has one.
    pub description: Option<Vec<u8>>,
    /// The records of a subdirectory's own entries, where they were read.
    pub children: Option<Vec<DirRecord>>,
}

/// One entry of a listing.
#[derive(Debug)]
pub struct Entry {
    pub children: Option<Vec<Entry>>,
    pub description: String,
    pub file_name: String,
    pub is_dir: bool,
    pub is_image: bool,
    pub size: u64,
    pub time: u64,
    pub type_marker: String,
}

/// Names starting with a dot are hidden.
pub open spec fn hidden_name(n: Seq<char>) -> bool {
    n.len() > 0 && n[0] == '.'
}

/// Names with one of the image suffixes (case-sensitive).
pub open spec fn image_name(n: Seq<char>) -> bool {
    is_suffix(".png"@, n) || is_suffix(".jpg"@, n) || is_suffix(".jpeg"@, n)
}

/// Every field that an entry needs was read, and the name is UTF-8.
pub open spec fn readable(r: DirRecord) -> bool {
    r.name is Some && r.is_dir is Some && r.size is Some && r.created is Some
}

/// The record is shown in a listing.
pub open spec fn listed(r: DirRecord) -> bool {
    readable(r) && !hidden_name(r.name.unwrap()@)
}

/// The records that a listing shows, in the order read.
pub open spec fn listed_records(rs: Seq<DirRecord>) -> Seq<DirRecord>
    decreases rs.len(),
{
    if rs.len() == 0 {
        seq![]
    } else {
        let pre = listed_records(rs.drop_last());
        if listed(rs.last()) {
            pre.push(rs.last())
        } else {
            pre
        }
    }
}

/// The description shown for an attribute value: empty where there is none.
pub open spec fn description_text(d: Option<Vec<u8>>) -> Seq<char> {
    match d {
        Some(b) => lossy_text(b@),
        None => seq![],
    }
}

/// The records read below a subdirectory; none where they could not be read.
pub open spec fn child_records(r: DirRecord) -> Seq<DirRecord> {
    match r.children {
        Some(c) => c@,
        None => seq![],
    }
}

/// `e` carries the fields of the readable record `r`.
pub open spec fn describes(e: Entry, r: DirRecord) -> bool {
    &&& e.file_name@ == r.name.unwrap()@
    &&& e.is_dir == r.is_dir.unwrap()
    &&& e.is_image == image_name(e.file_name@)
    &&& e.size == r.size.unwrap()
    &&& e.time == r.created.unwrap()
    &&& e.description@ == description_text(r.description)
    &&& e.type_marker@ == (if e.is_dir {
        "/"@
    } else {
        ""@
    })
}

/// `es` is the listing of `rs` with no children.
pub open spec fn leaves_of(es: Seq<Entry>, rs: Seq<DirRecord>) -> bool {
    &&& es.len() == listed_records(rs).len()
    &&& forall|i: int|
        0 <= i < es.len() ==> describes(#[trigger] es[i], listed_records(rs)[i])
            && es[i].children is None
}

/// `e` is the entry made of `r`; with `recurse`, a directory carries the
/// listing of its own records, one level deep.
pub open spec fn entry_of(e: Entry, r: DirRecord, recurse: bool) -> bool {
    &&& describes(e, r)
    &&& if recurse && r.is_dir.unwrap() {
        e.children is Some && leaves_of(e.children.unwrap()@, child_records(r))
    } else {
        e.children is None
    }
}

/// `es` is the listing of `rs`.
pub open spec fn entries_of(es: Seq<Entry>, rs: Seq<DirRecord>, recurse: bool) -> bool {
    &&& es.len() == listed_records(rs).len()
    &&& forall|i: int|
        0 <= i < es.len() ==> entry_of(#[trigger] es[i], listed_records(rs)[i], recurse)
}

/// Each name sorts before or equal to the names after it.
pub open spec fn sorted_by_name(es: Seq<Entry>) -> bool {
    forall|i: int, j: int|
        0 <= i < j < es.len() ==> name_le(#[trigger] es[i].file_name@, #[trigger] es[j].file_name@)
}

impl Entry {
    /// Whether a name is hidden from listings.
    pub fn is_hidden(name: &str) -> (r: bool)
        ensures
            r == hidden_name(name@),
    {
        name.unicode_len() > 0 && name.get_char(0) == '.'
    }

    /// Whether a name is that of an image: `.png`, `.jpg` or `.jpeg`.
    pub fn is_image(name: &str) -> (r: bool)
        ensures
            r == image_name(name@),
    {
        ends_with(name, ".png") || ends_with(name, ".jpg") || ends_with(name, ".jpeg")
    }

    /// The entry for one record, or `None` where a field could not be read.
    /// Hidden names are not looked at here.
    pub fn from_record(rec: &DirRecord, include_children: bool) -> (r: Option<Entry>)
        ensures
            r is Some <==> readable(*rec),
            r matches Some(e) ==> entry_of(e, *rec, include_children),
        decreases (if include_children { 1int } else { 0int }), 0int,
    {
        let file_name = match &rec.name {
            Some(n) => n.clone(),
            None => return None,
        };
        let is_dir = match rec.is_dir {
            Some(d) => d,
            None => return None,
        };
        let size = match rec.size {
            Some(s) => s,
            None => return None,
        };
        let time = match rec.created {
            Some(t) => t,
            None => return None,
        };
        let description = match &rec.description {
            Some(b) => decode_lossy(b),
            None => String::new(),
        };
        let is_image = Entry::is_image(file_name.as_str());
        let type_marker = if is_dir {
            String::from_str("/")
        } else {
            String::from_str("")
        };
        let children = if is_dir && include_children {
            match &rec.children {
                Some(c) => Some(Entry::entries(c, false)),
                None => Some(Vec::new()),
            }
        } else {
            None
        };
        proof {
            reveal_strlit("/");
            reveal_strlit("");
            if children is Some {
                assert(leaves_of(children.unwrap()@, child_records(*rec)));
            }
        }
        Some(Entry { children, description, file_name, is_dir, is_image, size, time, type_marker })
    }

    /// The listing of a directory's records, in the order read: hidden
    /// names and records with an unreadable field are left out.
    pub fn entries(records: &Vec<DirRecord>, include_children: bool) -> (r: Vec<Entry>)
        ensures
            entries_of(r@, records@, include_children),
        decreases (if include_children { 1int } else { 0int }), 1int,
    {
        let mut out: Vec<Entry> = Vec::new();
        let mut i: usize = 0;
        while i < records.len()
            invariant
                i <= records@.len(),
                entries_of(out@, records@.take(i as int), include_children),
            decreases records@.len() - i,
        {
            let rec = &records[i];
            assert(records@.take(i + 1).drop_last() =~= records@.take(i as int));
            assert(records@.take(i + 1).last() == records@[i as int]);
            let hidden = match &rec.name {
                Some(n) => Entry::is_hidden(n.as_str()),
                None => true,
            };
            if !hidden {
                if let Some(e) = Entry::from_record(rec, include_children) {
                    out.push(e);
                }
            }
            i += 1;
        }
        assert(records@.take(records@.len() as int) =~= records@);
        out
    }
}


/// Where `e` goes among the sorted `out` so that they stay sorted.
fn insert_position(out: &Vec<Entry>, e: &Entry) -> (k: usize)
    requires
        sorted_by_name(out@),
    ensures
        k <= out@.len(),
        forall|i: int| 0 <= i < k ==> name_le(#[trigger] out@[i].file_name@, e.file_name@),
        forall|i: int| k <= i < out@.len() ==> name_le(e.file_name@, #[trigger] out@[i].file_name@),
{
    let mut k: usize = 0;
    while k < out.len()
        invariant
            sorted_by_name(out@),
            k <= out@.len(),
            forall|i: int| 0 <= i < k ==> name_le(#[trigger] out@[i].file_name@, e.file_name@),
        decreases out@.len() - k,
    {
        if name_le_exec(e.file_name.as_str(), out[k].file_name.as_str()) {
            assert forall|i: int| k <= i < out@.len() implies name_le(
                e.file_name@,
                #[trigger] out@[i].file_name@,
            ) by {
                if i > k {
                    assert(name_le(out@[k as int].file_name@, out@[i].file_name@));
                    lemma_name_le_transitive(
                        e.file_name@,
                        out@[k as int].file_name@,
                        out@[i].file_name@,
                    );
                }
            }
            return k;
        }
        proof {
            lemma_name_le_total(e.file_name@, out@[k as int].file_name@);
        }
        k += 1;
    }
    k
}

/// The entries ordered by name in code-point order, none lost or added.
pub fn sort_by_name(v: Vec<Entry>) -> (r: Vec<Entry>)
    ensures
        sorted_by_name(r@),
        r@.to_multiset() == v@.to_multiset(),
{
    let mut rest = v;
    let mut out: Vec<Entry> = Vec::new();
    proof {
        broadcast use vstd::seq_lib::group_to_multiset_ensures;

        assert(out@.to_multiset() =~= Multiset::empty());
        assert(out@.to_multiset().add(rest@.to_multiset()) =~= v@.to_multiset());
    }
    while rest.len() > 0
        invariant
            sorted_by_name(out@),
            out@.to_multiset().add(rest@.to_multiset()) == v@.to_multiset(),
        decreases rest@.len(),
    {
        let ghost before = rest@;
        let ghost old_out = out@;
        let e = rest.pop().unwrap();
        let k = insert_position(&out, &e);
        out.insert(k, e);
        proof {
            assert(before =~= rest@.push(e));
            vstd::seq_lib::to_multiset_build(rest@, e);
            vstd::seq_lib::to_multiset_insert(old_out, k as int, e);
            assert(out@.to_multiset().add(rest@.to_multiset()) =~= old_out.to_multiset().add(
                before.to_multiset(),
            ));
            assert forall|i: int, j: int| 0 <= i < j < out@.len() implies name_le(
                #[trigger] out@[i].file_name@,
                #[trigger] out@[j].file_name@,
            ) by {
                if j < k {
                } else if j == k {
                } else if i < k {
                    lemma_name_le_transitive(old_out[i].file_name@, e.file_name@, old_out[j - 1].file_name@);
                } else if i == k {
                } else {
                    assert(old_out[i - 1] == out@[i]);
                }
            }
        }
    }
    proof {
        assert(rest@.to_multiset() =~= Multiset::empty());
        assert(out@.to_multiset().add(rest@.to_multiset()) =~= out@.to_multiset());
    }
    out
}

/// Every record that `listed_records` keeps is one that a listing shows.
pub proof fn lemma_listed_records_are_listed(rs: Seq<DirRecord>)
    ensures
        forall|i: int| 0 <= i < listed_records(rs).len() ==> listed(#[trigger] listed_records(rs)[i]),
    decreases rs.len(),
{
    if rs.len() > 0 {
        let pre = listed_records(rs.drop_last());
        lemma_listed_records_are_listed(rs.drop_last());
        assert forall|i: int| 0 <= i < listed_records(rs).len() implies listed(
            #[trigger] listed_records(rs)[i],
        ) by {
            if i < pre.len() {
                assert(listed(pre[i]));
            }
        }
    }
}

/// A record that a listing does not show changes nothing, wherever it
/// stands among the others.
pub proof fn lemma_unlisted_record_ignored(rs: Seq<DirRecord>, i: int, x: DirRecord)
    requires
        0 <= i <= rs.len(),
        !listed(x),
    ensures
        listed_records(rs.insert(i, x)) == listed_records(rs),
    decreases rs.len(),
{
    if i == rs.len() {
        assert(rs.insert(i, x).drop_last() =~= rs);
    } else {
        lemma_unlisted_record_ignored(rs.drop_last(), i, x);
        assert(rs.insert(i, x).drop_last() =~= rs.drop_last().insert(i, x));
    }
}

/// No entry with a hidden name appears in a listing, at either level.
pub proof fn lemma_hidden_never_listed(es: Seq<Entry>, rs: Seq<DirRecord>, recurse: bool)
    requires
        entries_of(es, rs, recurse),
    ensures
        forall|i: int| 0 <= i < es.len() ==> !hidden_name(#[trigger] es[i].file_name@),
        forall|i: int, j: int|
            0 <= i < es.len() && es[i].children is Some && 0 <= j < es[i].children.unwrap()@.len()
                ==> !hidden_name(#[trigger] es[i].children.unwrap()@[j].file_name@),
{
    lemma_listed_records_are_listed(rs);
    assert forall|i: int, j: int|
        0 <= i < es.len() && es[i].children is Some && 0 <= j < es[i].children.unwrap()@.len()
            implies !hidden_name(#[trigger] es[i].children.unwrap()@[j].file_name@) by {
        let r = listed_records(rs)[i];
        assert(entry_of(es[i], r, recurse));
        lemma_listed_records_are_listed(child_records(r));
    }
}

/// An entry whose name is not UTF-8 never appears, and its presence among
/// the records leaves the listing of the others as it is.
pub proof fn lemma_non_utf8_name_skipped(
    es: Seq<Entry>,
    rs: Seq<DirRecord>,
    i: int,
    x: DirRecord,
    recurse: bool,
)
    requires
        0 <= i <= rs.len(),
        x.name is None,
    ensures
        entries_of(es, rs.insert(i, x), recurse) <==> entries_of(es, rs, recurse),
{
    lemma_unlisted_record_ignored(rs, i, x);
}

/// Children are listed one level deep only: no child carries children.
pub proof fn lemma_depth_one(es: Seq<Entry>, rs: Seq<DirRecord>)
    requires
        entries_of(es, rs, true),
    ensures
        forall|i: int, j: int|
            0 <= i < es.len() && es[i].children is Some && 0 <= j < es[i].children.unwrap()@.len()
                ==> (#[trigger] es[i].children.unwrap()@[j]).children is None,
{
    assert forall|i: int, j: int|
        0 <= i < es.len() && es[i].children is Some && 0 <= j < es[i].children.unwrap()@.len()
            implies (#[trigger] es[i].children.unwrap()@[j]).children is None by {
        assert(entry_of(es[i], listed_records(rs)[i], true));
    }
}

} // verus!
