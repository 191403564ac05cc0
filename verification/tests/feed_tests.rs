use spore_downloader::error::SporeError;
use spore_downloader::feed_parser::parse_assets_from_feed;
use spore_downloader::feed_parser::parse_items_from_document;
use spore_downloader::spore_server::{Asset, AssetType};
use spore_downloader::xml::{XmlAttr, XmlChild, XmlElem, MAX_XML_DEPTH};

const ATOM: &str = "http://www.w3.org/2005/Atom";

fn feed_xml(entries: &str) -> String {
    format!("<feed xmlns=\"{}\">{}</feed>", ATOM, entries)
}

#[test]
fn empty_feed_yields_no_items() {
    let xml = feed_xml("");
    let items = parse_assets_from_feed(&xml).unwrap();
    assert!(items.is_empty());
}

#[test]
fn feed_with_only_metadata_children_yields_no_items() {
    let xml = feed_xml("<title>someone</title><updated>2009-01-01T00:00:00Z</updated>");
    let items = parse_assets_from_feed(&xml).unwrap();
    assert!(items.is_empty());
}

#[test]
fn document_without_feed_element_yields_no_items() {
    let xml = "<root><other/></root>";
    let items = parse_assets_from_feed(xml).unwrap();
    assert!(items.is_empty());
}

#[test]
fn feed_outside_atom_namespace_is_ignored() {
    let xml = "<feed><entry><id>tag:spore.com,2006:asset/42</id></entry></feed>";
    let items = parse_assets_from_feed(xml).unwrap();
    assert!(items.is_empty());
}

#[test]
fn malformed_xml_is_a_parse_error() {
    let r = parse_assets_from_feed("<feed><entry></feed>");
    assert_eq!(r, Err(SporeError::ParseError));
}

#[test]
fn two_entries_yield_items_in_document_order() {
    let xml = feed_xml(
        "<entry><id>tag:spore.com,2006:asset/42</id>\
         <link rel=\"enclosure\" type=\"application/x-creature+xml\" href=\"x\"/></entry>\
         <entry><id>tag:spore.com,2006:asset/43</id></entry>",
    );
    let items = parse_assets_from_feed(&xml).unwrap();
    assert_eq!(
        items,
        vec![
            Asset { id: 42, asset_type: AssetType::Creature },
            Asset { id: 43, asset_type: AssetType::Unknown },
        ]
    );
}

#[test]
fn identifier_is_second_slash_segment() {
    let xml = feed_xml("<entry><id>tag:spore.com,2006:asset/500123456789/extra</id></entry>");
    let items = parse_assets_from_feed(&xml).unwrap();
    assert_eq!(items[0].id, 500123456789);
}

#[test]
fn entry_without_id_is_malformed() {
    let xml = feed_xml("<entry><title>unnamed</title></entry>");
    assert_eq!(parse_assets_from_feed(&xml), Err(SporeError::MalformedEntry));
}

#[test]
fn entry_with_empty_id_is_malformed() {
    let xml = feed_xml("<entry><id></id></entry>");
    assert_eq!(parse_assets_from_feed(&xml), Err(SporeError::MalformedEntry));
}

#[test]
fn malformed_entry_aborts_whole_feed() {
    let xml = feed_xml(
        "<entry><id>tag:spore.com,2006:asset/42</id></entry>\
         <entry><title>unnamed</title></entry>",
    );
    assert_eq!(parse_assets_from_feed(&xml), Err(SporeError::MalformedEntry));
}

#[test]
fn id_without_second_segment_is_unexpected_format() {
    let xml = feed_xml("<entry><id>tag:spore.com,2006:asset-42</id></entry>");
    assert_eq!(parse_assets_from_feed(&xml), Err(SporeError::UnexpectedIdFormat));
}

#[test]
fn id_with_non_numeric_segment_is_invalid_identifier() {
    let xml = feed_xml("<entry><id>tag:spore.com,2006:asset/fortytwo</id></entry>");
    assert_eq!(parse_assets_from_feed(&xml), Err(SporeError::InvalidIdentifier));
}

fn classification_of(link: &str) -> AssetType {
    let xml = feed_xml(&format!("<entry><id>x/900000001</id>{}</entry>", link));
    parse_assets_from_feed(&xml).unwrap()[0].asset_type
}

#[test]
fn classification_follows_the_fixed_table() {
    assert_eq!(
        classification_of("<link rel=\"enclosure\" type=\"application/x-creature+xml\"/>"),
        AssetType::Creature
    );
    assert_eq!(
        classification_of("<link rel=\"enclosure\" type=\"application/x-vehicle+xml\"/>"),
        AssetType::Vehicle
    );
    assert_eq!(
        classification_of("<link rel=\"enclosure\" type=\"application/x-building+xml\"/>"),
        AssetType::Building
    );
    assert_eq!(
        classification_of("<link rel=\"enclosure\" type=\"application/x-ufo+xml\"/>"),
        AssetType::Ufo
    );
    assert_eq!(
        classification_of("<link rel=\"enclosure\" type=\"application/x-adventure+xml\"/>"),
        AssetType::Adventure
    );
}

#[test]
fn unmapped_prefixed_type_is_unknown() {
    assert_eq!(
        classification_of("<link rel=\"enclosure\" type=\"application/x-spaceship+xml\"/>"),
        AssetType::Unknown
    );
}

#[test]
fn non_prefixed_type_is_unknown() {
    assert_eq!(
        classification_of("<link rel=\"enclosure\" type=\"image/png\"/>"),
        AssetType::Unknown
    );
}

#[test]
fn entry_without_enclosure_link_is_unknown() {
    assert_eq!(classification_of(""), AssetType::Unknown);
    assert_eq!(classification_of("<link rel=\"alternate\" type=\"application/x-creature+xml\"/>"), AssetType::Unknown);
    assert_eq!(classification_of("<link type=\"application/x-creature+xml\"/>"), AssetType::Unknown);
}

#[test]
fn enclosure_without_type_is_unknown() {
    assert_eq!(classification_of("<link rel=\"enclosure\"/>"), AssetType::Unknown);
}

#[test]
fn first_enclosure_link_wins() {
    let links = "<link rel=\"enclosure\" type=\"image/png\"/>\
                 <link rel=\"enclosure\" type=\"application/x-creature+xml\"/>";
    assert_eq!(classification_of(links), AssetType::Unknown);
    let links = "<link rel=\"alternate\"/>\
                 <link rel=\"enclosure\" type=\"application/x-vehicle+xml\"/>";
    assert_eq!(classification_of(links), AssetType::Vehicle);
}

#[test]
fn nested_feed_element_is_found() {
    let xml = format!(
        "<wrapper><feed xmlns=\"{}\"><entry><id>a/7</id></entry></feed></wrapper>",
        ATOM
    );
    let items = parse_assets_from_feed(&xml).unwrap();
    assert_eq!(items, vec![Asset { id: 7, asset_type: AssetType::Unknown }]);
}

fn text_child(s: &str) -> XmlChild {
    XmlChild::Text(String::from(s))
}

fn atom_elem(tag: &str, attrs: Vec<XmlAttr>, children: Vec<XmlChild>) -> XmlElem {
    XmlElem { ns: String::from(ATOM), tag: String::from(tag), attrs, children }
}

#[test]
fn hand_built_document_parses_like_feed_text() {
    let entry = atom_elem(
        "entry",
        Vec::new(),
        vec![
            XmlChild::Elem(atom_elem("id", Vec::new(), vec![text_child("tag:spore.com,2006:asset/42")])),
            XmlChild::Elem(atom_elem(
                "link",
                vec![
                    XmlAttr { name: String::from("rel"), value: String::from("enclosure") },
                    XmlAttr { name: String::from("type"), value: String::from("application/x-ufo+xml") },
                ],
                Vec::new(),
            )),
        ],
    );
    let feed = atom_elem("feed", Vec::new(), vec![XmlChild::Elem(entry), XmlChild::Other]);
    let doc = XmlElem {
        ns: String::new(),
        tag: String::new(),
        attrs: Vec::new(),
        children: vec![XmlChild::Elem(feed)],
    };
    let items = parse_items_from_document(&doc).unwrap();
    assert_eq!(items, vec![Asset { id: 42, asset_type: AssetType::Ufo }]);
}

#[test]
fn prefixed_namespace_feed_is_recognized() {
    let xml = format!(
        "<a:feed xmlns:a=\"{}\"><a:entry><a:id>tag:spore.com,2006:asset/900000001</a:id></a:entry></a:feed>",
        ATOM
    );
    let items = parse_assets_from_feed(&xml).unwrap();
    assert_eq!(items, vec![Asset { id: 900000001, asset_type: AssetType::Unknown }]);
}

#[test]
fn id_outside_atom_namespace_does_not_count() {
    let xml = feed_xml("<entry><id xmlns=\"urn:other\">tag:spore.com,2006:asset/42</id></entry>");
    assert_eq!(parse_assets_from_feed(&xml), Err(SporeError::MalformedEntry));
}

fn nested_wrapper(depth: usize, inner: &str) -> String {
    let mut xml = String::with_capacity(7 * depth + inner.len());
    for _ in 0..depth {
        xml.push_str("<d>");
    }
    xml.push_str(inner);
    for _ in 0..depth {
        xml.push_str("</d>");
    }
    xml
}

#[test]
fn nesting_up_to_the_depth_bound_parses() {
    // The feed sits near the bound: its id element is the deepest, at
    // exactly MAX_XML_DEPTH.
    let feed = feed_xml("<entry><id>x/900000042</id></entry>");
    let xml = nested_wrapper(MAX_XML_DEPTH - 3, &feed);
    let items = parse_assets_from_feed(&xml).unwrap();
    assert_eq!(items, vec![Asset { id: 900000042, asset_type: AssetType::Unknown }]);

    let xml = nested_wrapper(MAX_XML_DEPTH, "");
    assert_eq!(parse_assets_from_feed(&xml), Ok(Vec::new()));
}

#[test]
fn nesting_beyond_the_depth_bound_is_a_parse_error() {
    let xml = nested_wrapper(MAX_XML_DEPTH + 1, "");
    assert_eq!(parse_assets_from_feed(&xml), Err(SporeError::ParseError));

    let feed = feed_xml("<entry><id>x/900000042</id></entry>");
    let xml = nested_wrapper(2 * MAX_XML_DEPTH, &feed);
    assert_eq!(parse_assets_from_feed(&xml), Err(SporeError::ParseError));
}

#[test]
fn comment_before_id_text_hides_the_text() {
    // roxmltree reports an element's text only when its first child is a
    // text node; a leading comment therefore leaves the id without text.
    let xml = feed_xml("<entry><id><!-- note -->tag:spore.com,2006:asset/42</id></entry>");
    assert_eq!(parse_assets_from_feed(&xml), Err(SporeError::MalformedEntry));
}
