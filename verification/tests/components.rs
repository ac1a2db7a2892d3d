//! Component-level tests: the digest, the canonical encoding, the anchor,
//! the link graph and the local history.

use applet_registry::anchor::{anchor_address, get_applets_path};
use applet_registry::graph::{LinkGraph, LinkType};
use applet_registry::hash::digest_of;
use applet_registry::history::{LocalHistory, OpKind};
use applet_registry::record::{canonical_bytes, Record, RecordKind};
use applet_registry::Address;

#[test]
fn digest_of_known_values() {
    // FNV-1a 64-bit: offset basis for empty input, published value for "a"
    assert_eq!(digest_of(&vec![]), 0xcbf29ce484222325);
    assert_eq!(digest_of(&vec![0x61]), 0xaf63dc4c8601ec8c);
}

#[test]
fn canonical_bytes_of_gui_blob() {
    // variant tag 2, length 2 as eight little-endian bytes, then the payload
    let bytes = canonical_bytes(&Record::GuiBlob(vec![1, 2]));
    assert_eq!(bytes, vec![2, 2, 0, 0, 0, 0, 0, 0, 0, 1, 2]);
    assert_eq!(digest_of(&bytes), 0x5b3f6ad34c8aeeb0);
}

#[test]
fn anchor_is_deterministic_and_path_dependent() {
    let path = get_applets_path();
    assert_eq!(path, "applets");
    assert_eq!(anchor_address(path.as_str()), anchor_address("applets"));
    assert_ne!(anchor_address("applets"), anchor_address("profiles"));
}

#[test]
fn get_links_filters_by_source_and_type() {
    let mut g = LinkGraph::new();
    let s1 = Address { digest: 1 };
    let s2 = Address { digest: 2 };
    let t = Address { digest: 9 };
    let id0 = g.create_link(s1, t, LinkType::AnchorToApplet, None);
    let id1 = g.create_link(s1, t, LinkType::ExternalAgentToApplet, None);
    let id2 = g.create_link(s2, t, LinkType::AnchorToApplet, None);
    assert_eq!((id0, id1, id2), (0, 1, 2));

    let all_s1 = g.get_links(s1, None);
    assert_eq!(all_s1.len(), 2);
    assert_eq!(all_s1[0].link_type, LinkType::AnchorToApplet);
    assert_eq!(all_s1[1].link_type, LinkType::ExternalAgentToApplet);

    let anchors_s1 = g.get_links(s1, Some(LinkType::AnchorToApplet));
    assert_eq!(anchors_s1.len(), 1);
    assert_eq!(anchors_s1[0].source, s1);
    assert_eq!(anchors_s1[0].target, t);

    assert_eq!(g.get_links(s2, Some(LinkType::ExternalAgentToApplet)).len(), 0);
}

#[test]
fn history_query_filters_by_operation_and_kind() {
    let mut h = LocalHistory::new();
    let a = Address { digest: 4 };
    h.record_created(a, Record::GuiBlob(vec![1]));
    h.record_created(a, Record::Applet(empty_applet()));
    h.link_created(a, Address { digest: 5 }, LinkType::ExternalAgentToApplet);

    assert_eq!(h.query(None, None).len(), 3);
    assert_eq!(h.query(Some(OpKind::CreateRecord), None).len(), 2);
    assert_eq!(h.query(Some(OpKind::CreateLink), None).len(), 1);
    assert_eq!(h.query(None, Some(RecordKind::Applet)).len(), 1);
    assert_eq!(h.query(None, Some(RecordKind::GuiBlob)).len(), 1);
    // a record-kind filter admits no link creates
    assert_eq!(h.query(Some(OpKind::CreateLink), Some(RecordKind::Applet)).len(), 0);
}

fn empty_applet() -> applet_registry::record::Applet {
    applet_registry::record::Applet {
        name: "n".to_string(),
        description: "d".to_string(),
        logo_src: None,
        devhub_happ_release_hash: Address { digest: 0 },
        gui_file_hash: Address { digest: 0 },
        properties: vec![],
        uid: vec![],
        dna_hashes: vec![],
    }
}

#[test]
fn addresses_distinguish_unicode_and_empty_names() {
    let mut a = empty_applet();
    a.name = "".to_string();
    let mut b = empty_applet();
    b.name = "café".to_string();
    let mut c = empty_applet();
    c.name = "cafe".to_string();
    let ha = applet_registry::record::address_of(&Record::Applet(a));
    let hb = applet_registry::record::address_of(&Record::Applet(b));
    let hc = applet_registry::record::address_of(&Record::Applet(c));
    assert_ne!(ha, hb);
    assert_ne!(hb, hc);
    assert_ne!(ha, hc);
}

#[test]
fn addresses_are_sensitive_to_role_order() {
    // content identity is defined over the canonical bytes, so the same
    // role entries in a different order are different content
    let mut a = empty_applet();
    a.properties = vec![
        ("r1".to_string(), vec![1]),
        ("r2".to_string(), vec![2]),
    ];
    let mut b = empty_applet();
    b.properties = vec![
        ("r2".to_string(), vec![2]),
        ("r1".to_string(), vec![1]),
    ];
    let ha = applet_registry::record::address_of(&Record::Applet(a));
    let hb = applet_registry::record::address_of(&Record::Applet(b));
    assert_ne!(ha, hb);
}

#[test]
fn logo_presence_changes_the_address() {
    let a = empty_applet();
    let mut b = empty_applet();
    b.logo_src = Some("".to_string());
    let ha = applet_registry::record::address_of(&Record::Applet(a));
    let hb = applet_registry::record::address_of(&Record::Applet(b));
    assert_ne!(ha, hb);
}
