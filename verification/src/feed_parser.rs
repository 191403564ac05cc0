//! The verified Atom feed parser: turns feed text into the ordered sequence
//! of discovered items, each with its identifier and classified content kind.

use vstd::prelude::*;
use vstd::string::StrSliceExecFns;
use crate::digits::{all_digits, digits_value, is_ascii_digit, parse_i64, spec_parse_i64};
use crate::error::SporeError;
use crate::spore_server::{spec_asset_type_from_mime, asset_type_from_mime, Asset, AssetType};
use crate::text::{second_segment, second_segment_str, spec_starts_with, str_eq, str_starts_with};
use crate::xml::{
    child_elem, find_elem, find_named_child, is_named_child, parse_xml_document, spec_attr,
    spec_find_elem, spec_xml_document, XmlChild, XmlElem,
};

verus! {

/// The Atom namespace every feed element lives in.
pub open spec fn atom_ns() -> Seq<char> {
    "http://www.w3.org/2005/Atom"@
}

/// True when `c` is an Atom `entry` element.
pub open spec fn is_entry_child(c: XmlChild) -> bool {
    is_named_child(c, atom_ns(), "entry"@)
}

/// True when `c` is an enclosure link: an Atom `link` element whose `rel`
/// attribute is `enclosure`.
pub open spec fn is_enclosure_link(c: XmlChild) -> bool {
    is_named_child(c, atom_ns(), "link"@) && spec_attr(child_elem(c).attrs@, "rel"@) == Some(
        "enclosure"@,
    )
}

/// The index of the first enclosure link among `cs`, if any.
pub open spec fn find_enclosure_link(cs: Seq<XmlChild>) -> Option<int>
    decreases cs.len(),
{
    if cs.len() == 0 {
        None
    } else if is_enclosure_link(cs[0]) {
        Some(0)
    } else {
        match find_enclosure_link(cs.drop_first()) {
            Some(i) => Some(i + 1),
            None => None,
        }
    }
}

/// `find_enclosure_link` returns the least index holding an enclosure link,
/// or `None` when there is none.
pub proof fn lemma_find_enclosure_link(cs: Seq<XmlChild>)
    ensures
        match find_enclosure_link(cs) {
            Some(i) => 0 <= i < cs.len() && is_enclosure_link(cs[i]) && (forall|j: int|
                0 <= j < i ==> !is_enclosure_link(cs[j])),
            None => forall|j: int| 0 <= j < cs.len() ==> !is_enclosure_link(cs[j]),
        },
    decreases cs.len(),
{
    if cs.len() == 0 {
    } else if is_enclosure_link(cs[0]) {
    } else {
        let d = cs.drop_first();
        lemma_find_enclosure_link(d);
        assert(forall|j: int| 0 <= j < d.len() ==> d[j] == cs[j + 1]);
        match find_enclosure_link(d) {
            Some(i) => {
                assert(cs[i + 1] == d[i]);
                assert forall|j: int| 0 <= j < i + 1 implies !is_enclosure_link(cs[j]) by {
                    if j > 0 {
                        assert(cs[j] == d[j - 1]);
                    }
                }
            },
            None => {
                assert forall|j: int| 0 <= j < cs.len() implies !is_enclosure_link(cs[j]) by {
                    if j > 0 {
                        assert(cs[j] == d[j - 1]);
                    }
                }
            },
        }
    }
}

/// The classification of an entry with children `cs`: the first enclosure
/// link's declared type, mapped through the fixed table when it begins with
/// `application/x-`; `Unknown` otherwise.
pub open spec fn spec_classify_entry(cs: Seq<XmlChild>) -> AssetType {
    match find_enclosure_link(cs) {
        None => AssetType::Unknown,
        Some(i) => match spec_attr(child_elem(cs[i]).attrs@, "type"@) {
            None => AssetType::Unknown,
            Some(tv) => if spec_starts_with(tv, "application/x-"@) {
                spec_asset_type_from_mime(tv)
            } else {
                AssetType::Unknown
            },
        },
    }
}

/// The text of an entry's first `id` child, when the entry has an `id` child
/// holding text.
pub open spec fn spec_entry_id_text(e: XmlElem) -> Option<Seq<char>> {
    match find_named_child(e.children@, atom_ns(), "id"@) {
        None => None,
        Some(i) => child_elem(e.children@[i]).spec_text(),
    }
}

/// The item one entry yields: the integer value of the second `/`-delimited
/// segment of its `id` text, and its classification. An absent or empty `id`
/// text is a malformed entry; an `id` text without a second segment, or with
/// a segment that is not a 64-bit integer, is rejected as such.
pub open spec fn spec_parse_entry(e: XmlElem) -> Result<Asset, SporeError> {
    match spec_entry_id_text(e) {
        None => Err(SporeError::MalformedEntry),
        Some(t) => if t.len() == 0 {
            Err(SporeError::MalformedEntry)
        } else {
            match second_segment(t) {
                None => Err(SporeError::UnexpectedIdFormat),
                Some(seg) => match spec_parse_i64(seg) {
                    None => Err(SporeError::InvalidIdentifier),
                    Some(id) => Ok(Asset { id, asset_type: spec_classify_entry(e.children@) }),
                },
            }
        },
    }
}

/// The items the children `cs` of a feed element yield, in document order:
/// one item per `entry` child, aborting at the first entry that fails.
pub open spec fn spec_parse_children(cs: Seq<XmlChild>) -> Result<Seq<Asset>, SporeError>
    decreases cs.len(),
{
    if cs.len() == 0 {
        Ok(Seq::empty())
    } else {
        match spec_parse_children(cs.drop_last()) {
            Err(e) => Err(e),
            Ok(items) => if is_entry_child(cs.last()) {
                match spec_parse_entry(child_elem(cs.last())) {
                    Ok(a) => Ok(items.push(a)),
                    Err(e) => Err(e),
                }
            } else {
                Ok(items)
            },
        }
    }
}

/// The items a document yields: those of the first `feed` element found in
/// document order, or none at all when the document has no `feed` element.
pub open spec fn spec_parse_items(root: XmlElem) -> Result<Seq<Asset>, SporeError> {
    match spec_find_elem(root, atom_ns(), "feed"@) {
        None => Ok(Seq::empty()),
        Some(feed) => spec_parse_children(feed.children@),
    }
}

/// Finds an entry's first enclosure link.
#[verifier::loop_isolation(false)]
fn find_enclosure<'a>(entry: &'a XmlElem) -> (r: Option<&'a XmlElem>)
    ensures
        match find_enclosure_link(entry.children@) {
            Some(i) => r matches Some(x) && *x == child_elem(entry.children@[i]),
            None => r is None,
        },
{
    proof {
        lemma_find_enclosure_link(entry.children@);
    }
    let n = entry.children.len();
    let mut i: usize = 0;
    while i < n
        invariant
            0 <= i <= n,
            forall|j: int| 0 <= j < i ==> !is_enclosure_link(entry.children@[j]),
        decreases n - i,
    {
        match &entry.children[i] {
            XmlChild::Elem(sub) => {
                if sub.is_named("http://www.w3.org/2005/Atom", "link") {
                    match sub.attr("rel") {
                        Some(rel) => {
                            if str_eq(rel.as_str(), "enclosure") {
                                proof {
                                    assert(is_enclosure_link(entry.children@[i as int]));
                                    assert(find_enclosure_link(entry.children@) == Some(i as int));
                                }
                                return Some(sub);
                            }
                        },
                        None => {},
                    }
                }
            },
            _ => {},
        }
        proof {
            assert(!is_enclosure_link(entry.children@[i as int]));
        }
        i += 1;
    }
    None
}

/// Classifies one entry from its first enclosure link's declared type.
fn classify_entry(entry: &XmlElem) -> (r: AssetType)
    ensures
        r == spec_classify_entry(entry.children@),
{
    match find_enclosure(entry) {
        None => AssetType::Unknown,
        Some(link) => match link.attr("type") {
            None => AssetType::Unknown,
            Some(tv) => {
                if str_starts_with(tv.as_str(), "application/x-") {
                    asset_type_from_mime(tv.as_str())
                } else {
                    AssetType::Unknown
                }
            },
        },
    }
}

/// Parses one feed entry into its item.
fn parse_entry(entry: &XmlElem) -> (r: Result<Asset, SporeError>)
    ensures
        r == spec_parse_entry(*entry),
{
    let idel = match entry.find_child("http://www.w3.org/2005/Atom", "id") {
        None => {
            return Err(SporeError::MalformedEntry);
        },
        Some(x) => x,
    };
    let t = match idel.text() {
        None => {
            return Err(SporeError::MalformedEntry);
        },
        Some(x) => x,
    };
    if t.as_str().unicode_len() == 0 {
        return Err(SporeError::MalformedEntry);
    }
    let seg = match second_segment_str(t.as_str()) {
        None => {
            return Err(SporeError::UnexpectedIdFormat);
        },
        Some(x) => x,
    };
    let id = match parse_i64(seg) {
        None => {
            return Err(SporeError::InvalidIdentifier);
        },
        Some(x) => x,
    };
    let asset_type = classify_entry(entry);
    Ok(Asset { id, asset_type })
}

/// A prefix that already fails keeps the whole child sequence failing with
/// the same error.
proof fn lemma_parse_children_err(cs: Seq<XmlChild>, i: int, e: SporeError)
    requires
        0 <= i <= cs.len(),
        spec_parse_children(cs.subrange(0, i)) == Err::<Seq<Asset>, SporeError>(e),
    ensures
        spec_parse_children(cs) == Err::<Seq<Asset>, SporeError>(e),
    decreases cs.len() - i,
{
    if i == cs.len() {
        assert(cs.subrange(0, i) =~= cs);
    } else {
        assert(cs.subrange(0, i + 1).drop_last() =~= cs.subrange(0, i));
        lemma_parse_children_err(cs, i + 1, e);
    }
}

/// Parses every entry among a feed element's children, in document order.
#[verifier::loop_isolation(false)]
fn parse_feed_children(feed: &XmlElem) -> (r: Result<Vec<Asset>, SporeError>)
    ensures
        match spec_parse_children(feed.children@) {
            Ok(items) => r matches Ok(v) && v@ == items,
            Err(e) => r matches Err(e2) && e2 == e,
        },
{
    let mut assets: Vec<Asset> = Vec::new();
    let n = feed.children.len();
    let mut i: usize = 0;
    while i < n
        invariant
            0 <= i <= n,
            spec_parse_children(feed.children@.subrange(0, i as int)) == Ok::<
                Seq<Asset>,
                SporeError,
            >(assets@),
        decreases n - i,
    {
        let ghost grown = feed.children@.subrange(0, i + 1);
        proof {
            assert(grown.drop_last() =~= feed.children@.subrange(0, i as int));
            assert(grown.last() == feed.children@[i as int]);
        }
        match &feed.children[i] {
            XmlChild::Elem(sub) => {
                if sub.is_named("http://www.w3.org/2005/Atom", "entry") {
                    proof {
                        assert(is_entry_child(feed.children@[i as int]));
                        assert(child_elem(feed.children@[i as int]) == *sub);
                    }
                    match parse_entry(sub) {
                        Ok(a) => {
                            assets.push(a);
                        },
                        Err(e) => {
                            proof {
                                assert(spec_parse_children(grown) == Err::<
                                    Seq<Asset>,
                                    SporeError,
                                >(e));
                                lemma_parse_children_err(feed.children@, i + 1, e);
                            }
                            return Err(e);
                        },
                    }
                } else {
                    proof {
                        assert(!is_entry_child(feed.children@[i as int]));
                    }
                }
            },
            _ => {},
        }
        i += 1;
    }
    proof {
        assert(feed.children@.subrange(0, n as int) =~= feed.children@);
    }
    Ok(assets)
}

/// Parses a document's items: those of its first `feed` element, in document
/// order, or none when it has no `feed` element.
pub fn parse_items_from_document(root: &XmlElem) -> (r: Result<Vec<Asset>, SporeError>)
    ensures
        match spec_parse_items(*root) {
            Ok(items) => r matches Ok(v) && v@ == items,
            Err(e) => r matches Err(e2) && e2 == e,
        },
{
    match find_elem(root, "http://www.w3.org/2005/Atom", "feed") {
        None => Ok(Vec::new()),
        Some(feed) => parse_feed_children(feed),
    }
}

/// Parses Atom feed text into the ordered sequence of discovered items.
///
/// Text that is not well-formed XML — or that nests elements deeper than
/// `MAX_XML_DEPTH`, see `spec_xml_document` — is a parse error; a well-formed
/// document without a `feed` element, or with a feed holding no entries,
/// yields the empty sequence; and any malformed entry aborts the whole
/// parse, yielding no partial items.
pub fn parse_assets_from_feed(xml: &str) -> (r: Result<Vec<Asset>, SporeError>)
    ensures
        match spec_xml_document(xml@) {
            None => r matches Err(e) && e == SporeError::ParseError,
            Some(root) => (match spec_parse_items(root) {
                Ok(items) => r matches Ok(v) && v@ == items,
                Err(e) => r matches Err(e2) && e2 == e,
            }),
        },
{
    match parse_xml_document(xml) {
        None => Err(SporeError::ParseError),
        Some(root) => parse_items_from_document(&root),
    }
}

/// Children without any `entry` element yield no items and no error.
proof fn lemma_parse_children_no_entries(cs: Seq<XmlChild>)
    requires
        forall|j: int| 0 <= j < cs.len() ==> !is_entry_child(cs[j]),
    ensures
        spec_parse_children(cs) == Ok::<Seq<Asset>, SporeError>(Seq::empty()),
    decreases cs.len(),
{
    if cs.len() > 0 {
        let d = cs.drop_last();
        assert(forall|j: int| 0 <= j < d.len() ==> d[j] == cs[j]);
        lemma_parse_children_no_entries(d);
    }
}

/// A well-formed document whose feed has no `entry` children — or that has
/// no `feed` element at all — yields the empty item sequence, never an error.
pub proof fn lemma_empty_feed_yields_no_items(root: XmlElem)
    requires
        match spec_find_elem(root, atom_ns(), "feed"@) {
            None => true,
            Some(feed) => forall|j: int|
                0 <= j < feed.children@.len() ==> !is_entry_child(feed.children@[j]),
        },
    ensures
        spec_parse_items(root) == Ok::<Seq<Asset>, SporeError>(Seq::empty()),
{
    match spec_find_elem(root, atom_ns(), "feed"@) {
        None => {},
        Some(feed) => {
            lemma_parse_children_no_entries(feed.children@);
        },
    }
}

/// An entry whose `id` text carries an all-digit second `/`-delimited
/// segment yields exactly that segment's decimal value as its identifier.
pub proof fn lemma_identifier_is_second_segment_value(entry: XmlElem, t: Seq<char>, seg: Seq<char>)
    requires
        spec_entry_id_text(entry) == Some(t),
        t.len() > 0,
        second_segment(t) == Some(seg),
        seg.len() > 0,
        all_digits(seg),
        digits_value(seg) <= i64::MAX,
    ensures
        spec_parse_entry(entry) matches Ok(a) && a.id == digits_value(seg),
{
    assert(is_ascii_digit(seg[0]));
    assert(seg[0] != '-' && seg[0] != '+') by {
        if seg[0] == '-' || seg[0] == '+' {
            assert(seg[0] as u32 == 45 || seg[0] as u32 == 43);
        }
    }
    assert(spec_parse_i64(seg) == Some((digits_value(seg) as int) as i64));
}

/// An entry without an `id` child, or whose `id` holds no text or empty
/// text, fails as a malformed entry.
pub proof fn lemma_missing_or_empty_id_is_malformed(entry: XmlElem)
    requires
        match spec_entry_id_text(entry) {
            None => true,
            Some(t) => t.len() == 0,
        },
    ensures
        spec_parse_entry(entry) == Err::<Asset, SporeError>(SporeError::MalformedEntry),
{
}

/// Entries that all parse give an `Ok` prefix.
proof fn lemma_parse_children_ok_prefix(cs: Seq<XmlChild>, k: int)
    requires
        0 <= k <= cs.len(),
        forall|j: int|
            0 <= j < k ==> (is_entry_child(cs[j]) ==> spec_parse_entry(child_elem(cs[j])) is Ok),
    ensures
        spec_parse_children(cs.subrange(0, k)) is Ok,
    decreases k,
{
    if k > 0 {
        assert(cs.subrange(0, k).drop_last() =~= cs.subrange(0, k - 1));
        assert(cs.subrange(0, k).last() == cs[k - 1]);
        lemma_parse_children_ok_prefix(cs, k - 1);
    }
}

/// A feed whose first failing entry fails with error `e` makes the whole
/// parse fail with `e`, yielding no partial items.
pub proof fn lemma_failing_entry_aborts_feed(root: XmlElem, feed: XmlElem, i: int, e: SporeError)
    requires
        spec_find_elem(root, atom_ns(), "feed"@) == Some(feed),
        0 <= i < feed.children@.len(),
        is_entry_child(feed.children@[i]),
        spec_parse_entry(child_elem(feed.children@[i])) == Err::<Asset, SporeError>(e),
        forall|j: int|
            0 <= j < i ==> (is_entry_child(feed.children@[j]) ==> spec_parse_entry(
                child_elem(feed.children@[j]),
            ) is Ok),
    ensures
        spec_parse_items(root) == Err::<Seq<Asset>, SporeError>(e),
{
    let cs = feed.children@;
    lemma_parse_children_ok_prefix(cs, i);
    assert(cs.subrange(0, i + 1).drop_last() =~= cs.subrange(0, i));
    assert(cs.subrange(0, i + 1).last() == cs[i]);
    assert(spec_parse_children(cs.subrange(0, i + 1)) == Err::<Seq<Asset>, SporeError>(e));
    lemma_parse_children_err(cs, i + 1, e);
}

/// One failing entry anywhere among the children makes the whole sequence
/// fail, whatever the other children hold.
proof fn lemma_parse_children_any_err(cs: Seq<XmlChild>, i: int)
    requires
        0 <= i < cs.len(),
        is_entry_child(cs[i]),
        spec_parse_entry(child_elem(cs[i])) is Err,
    ensures
        spec_parse_children(cs) is Err,
    decreases cs.len(),
{
    let d = cs.drop_last();
    if i < cs.len() - 1 {
        assert(d[i] == cs[i]);
        lemma_parse_children_any_err(d, i);
    }
}

/// An entry that fails to parse — wherever it stands in the feed — makes the
/// whole parse fail: no partial item sequence is ever produced. The error
/// reported is the first failing entry's.
pub proof fn lemma_failing_entry_yields_no_items(root: XmlElem, feed: XmlElem, i: int)
    requires
        spec_find_elem(root, atom_ns(), "feed"@) == Some(feed),
        0 <= i < feed.children@.len(),
        is_entry_child(feed.children@[i]),
        spec_parse_entry(child_elem(feed.children@[i])) is Err,
    ensures
        spec_parse_items(root) is Err,
{
    lemma_parse_children_any_err(feed.children@, i);
}

/// True when `c` is an enclosure link declaring a type that begins with
/// `application/x-`.
pub open spec fn is_prefixed_enclosure(c: XmlChild) -> bool {
    is_enclosure_link(c) && match spec_attr(child_elem(c).attrs@, "type"@) {
        Some(tv) => spec_starts_with(tv, "application/x-"@),
        None => false,
    }
}

/// Classification is `Unknown` whenever no child is an enclosure link with a
/// type beginning `application/x-`; and whenever the first enclosure link
/// declares such a type, classification is exactly the fixed table's kind
/// for it — `Unknown` again for a type the table does not map.
pub proof fn lemma_classification(cs: Seq<XmlChild>)
    ensures
        (forall|j: int| 0 <= j < cs.len() ==> !is_prefixed_enclosure(cs[j]))
            ==> spec_classify_entry(cs) == AssetType::Unknown,
        match find_enclosure_link(cs) {
            Some(i) => match spec_attr(child_elem(cs[i]).attrs@, "type"@) {
                Some(tv) => spec_starts_with(tv, "application/x-"@) ==> spec_classify_entry(cs)
                    == spec_asset_type_from_mime(tv),
                None => spec_classify_entry(cs) == AssetType::Unknown,
            },
            None => spec_classify_entry(cs) == AssetType::Unknown,
        },
{
    lemma_find_enclosure_link(cs);
}

} // verus!
