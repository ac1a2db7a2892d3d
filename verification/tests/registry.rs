//! End-to-end tests of the registration protocol and the discovery queries.

use applet_registry::anchor::anchor_address;
use applet_registry::graph::{Link, LinkType};
use applet_registry::peer::{Peer, PlayingApplet, RegisterAppletInput};
use applet_registry::record::{address_of, Applet, AppletGui, Record};
use applet_registry::store::RegistryError;
use applet_registry::Address;

fn sample_applet(name: &str, description: &str, gui: u64) -> Applet {
    Applet {
        name: name.to_string(),
        description: description.to_string(),
        logo_src: None,
        devhub_happ_release_hash: Address { digest: 7 },
        gui_file_hash: Address { digest: gui },
        properties: vec![("role".to_string(), vec![1u8, 2u8])],
        uid: vec![("role".to_string(), Some("seed".to_string()))],
        dna_hashes: vec![("role".to_string(), Address { digest: 9 })],
    }
}

#[test]
fn create_applet() {
    let mut peer = Peer::new();
    let applet = sample_applet("name", "description", 1);
    let input = RegisterAppletInput {
        applet_agent_pub_key: Address { digest: 42 },
        applet: sample_applet("name", "description", 1),
    };
    let addr = peer.create_applet(input);
    let all = peer.get_all_applets();
    assert_eq!(all.len(), 1);
    assert_eq!(all[0].0, addr);
    assert_eq!(all[0].1, applet);
}

#[test]
fn put_is_deterministic_across_peers() {
    let mut peer1 = Peer::new();
    let mut peer2 = Peer::new();
    let a1 = peer1.register_applet(RegisterAppletInput {
        applet_agent_pub_key: Address { digest: 1 },
        applet: sample_applet("chat", "d", 3),
    });
    let a2 = peer2.register_applet(RegisterAppletInput {
        applet_agent_pub_key: Address { digest: 2 },
        applet: sample_applet("chat", "d", 3),
    });
    assert_eq!(a1, a2);
    // different content gives a different address
    let a3 = peer2.register_applet(RegisterAppletInput {
        applet_agent_pub_key: Address { digest: 2 },
        applet: sample_applet("chat", "e", 3),
    });
    assert_ne!(a1, a3);
}

#[test]
fn gui_commit_is_deterministic_across_peers() {
    let mut peer1 = Peer::new();
    let mut peer2 = Peer::new();
    let g1 = peer1.commit_gui_file(AppletGui(vec![1, 2, 3]));
    let g2 = peer2.commit_gui_file(AppletGui(vec![1, 2, 3]));
    assert_eq!(g1, g2);
}

#[test]
fn duplicate_anchor_link_does_not_drop_or_double_list() {
    let mut peer = Peer::new();
    let addr = peer.create_applet(RegisterAppletInput {
        applet_agent_pub_key: Address { digest: 42 },
        applet: sample_applet("chat", "d", 1),
    });
    // link the same applet from the anchor a second time
    peer.observe_link(Link {
        source: anchor_address("applets"),
        target: addr,
        link_type: LinkType::AnchorToApplet,
        tag: None,
    });
    let all = peer.get_all_applets();
    assert_eq!(all.len(), 1);
    assert_eq!(all[0].0, addr);
}

#[test]
fn playing_view_is_immediate_and_exact() {
    let mut peer = Peer::new();
    let agent = Address { digest: 77 };
    let addr = peer.register_applet(RegisterAppletInput {
        applet_agent_pub_key: agent,
        applet: sample_applet("chat", "d", 1),
    });
    let playing = peer.get_applets_i_am_playing();
    assert_eq!(playing.len(), 1);
    assert_eq!(playing[0].0, addr);
    assert_eq!(
        playing[0].1,
        PlayingApplet { applet: sample_applet("chat", "d", 1), agent_pub_key: agent }
    );
}

#[test]
fn unresolvable_targets_are_omitted_not_errors() {
    let mut peer = Peer::new();
    let addr = peer.create_applet(RegisterAppletInput {
        applet_agent_pub_key: Address { digest: 42 },
        applet: sample_applet("chat", "d", 1),
    });
    // anchor link to an address nothing resolves to
    peer.observe_link(Link {
        source: anchor_address("applets"),
        target: Address { digest: 0xdeadbeef },
        link_type: LinkType::AnchorToApplet,
        tag: None,
    });
    // anchor link to a record that is not an applet
    let gui_addr = peer.commit_gui_file(AppletGui(vec![9, 9]));
    peer.observe_link(Link {
        source: anchor_address("applets"),
        target: gui_addr,
        link_type: LinkType::AnchorToApplet,
        tag: None,
    });
    let all = peer.get_all_applets();
    assert_eq!(all.len(), 1);
    assert_eq!(all[0].0, addr);
    assert_eq!(all[0].1, sample_applet("chat", "d", 1));
}

#[test]
fn converged_peer_discovers_remote_applet() {
    // register on peer 1
    let mut peer1 = Peer::new();
    let agent = Address { digest: 501 };
    let gui = peer1.commit_gui_file(AppletGui(vec![1, 2, 3, 4]));
    let applet = Applet {
        name: "chat".to_string(),
        description: "d".to_string(),
        logo_src: None,
        devhub_happ_release_hash: Address { digest: 7 },
        gui_file_hash: gui,
        properties: vec![],
        uid: vec![],
        dna_hashes: vec![],
    };
    let addr = peer1.create_applet(RegisterAppletInput {
        applet_agent_pub_key: agent,
        applet: Applet { gui_file_hash: gui, ..clone_applet(&applet) },
    });

    // propagation delivers the public record and the anchor link to peer 2
    let mut peer2 = Peer::new();
    let observed = peer2.observe_record(Record::Applet(clone_applet(&applet)));
    assert_eq!(observed, addr);
    peer2.observe_link(Link {
        source: anchor_address("applets"),
        target: addr,
        link_type: LinkType::AnchorToApplet,
        tag: None,
    });

    // peer 2's global view holds exactly the applet under its address
    let all = peer2.get_all_applets();
    assert_eq!(all.len(), 1);
    assert_eq!(all[0].0, addr);
    assert_eq!(all[0].1, applet);

    // peer 2 plays nothing: the playing view is local-only
    assert_eq!(peer2.get_applets_i_am_playing().len(), 0);

    // peer 1's playing view maps the address to the applet and agent
    let playing = peer1.get_applets_i_am_playing();
    assert_eq!(playing.len(), 1);
    assert_eq!(playing[0].0, addr);
    assert_eq!(playing[0].1.applet, applet);
    assert_eq!(playing[0].1.agent_pub_key, agent);
}

fn clone_applet(a: &Applet) -> Applet {
    Applet {
        name: a.name.clone(),
        description: a.description.clone(),
        logo_src: a.logo_src.clone(),
        devhub_happ_release_hash: a.devhub_happ_release_hash,
        gui_file_hash: a.gui_file_hash,
        properties: a.properties.clone(),
        uid: a.uid.clone(),
        dna_hashes: a.dna_hashes.clone(),
    }
}

#[test]
fn gui_roundtrip_and_errors() {
    let mut peer = Peer::new();
    // not found on a fresh peer
    assert_eq!(
        peer.query_applet_gui(Address { digest: 5 }),
        Err(RegistryError::NotFound)
    );
    // roundtrip
    let gui_addr = peer.commit_gui_file(AppletGui(vec![10, 20, 30]));
    assert_eq!(peer.query_applet_gui(gui_addr), Ok(AppletGui(vec![10, 20, 30])));
    // an applet record is the wrong variant
    let applet_addr = peer.register_applet(RegisterAppletInput {
        applet_agent_pub_key: Address { digest: 1 },
        applet: sample_applet("chat", "d", 1),
    });
    assert_eq!(peer.query_applet_gui(applet_addr), Err(RegistryError::TypeMismatch));
}

#[test]
fn duplicate_registration_is_idempotent_in_store() {
    let mut peer = Peer::new();
    let input = || RegisterAppletInput {
        applet_agent_pub_key: Address { digest: 42 },
        applet: sample_applet("chat", "d", 1),
    };
    let a1 = peer.create_applet(input());
    let a2 = peer.create_applet(input());
    assert_eq!(a1, a2);
    let all = peer.get_all_applets();
    assert_eq!(all.len(), 1);
    let playing = peer.get_applets_i_am_playing();
    assert_eq!(playing.len(), 1);
}

#[test]
fn fresh_peer_has_empty_views() {
    let peer = Peer::new();
    assert_eq!(peer.get_all_applets().len(), 0);
    assert_eq!(peer.get_applets_i_am_playing().len(), 0);
}

#[test]
fn playing_view_ignores_foreign_records() {
    // a record and agent link observed from the network are discoverable
    // globally but never count as "playing" here
    let mut peer = Peer::new();
    let addr = peer.observe_record(Record::Applet(sample_applet("chat", "d", 1)));
    peer.observe_link(Link {
        source: anchor_address("applets"),
        target: addr,
        link_type: LinkType::AnchorToApplet,
        tag: None,
    });
    assert_eq!(peer.get_all_applets().len(), 1);
    assert_eq!(peer.get_applets_i_am_playing().len(), 0);
}

#[test]
fn agent_link_without_local_record_is_dropped_from_playing() {
    let mut peer = Peer::new();
    // a locally created agent link whose source applet record was never
    // created locally does not appear in the playing view
    let applet = sample_applet("chat", "d", 1);
    let addr = address_of(&Record::Applet(applet));
    peer.create_link(
        addr,
        Address { digest: 3 },
        LinkType::ExternalAgentToApplet,
        None,
    );
    assert_eq!(peer.get_applets_i_am_playing().len(), 0);
}

#[test]
fn newest_agent_link_wins_in_playing_view() {
    let mut peer = Peer::new();
    let first_agent = Address { digest: 1 };
    let second_agent = Address { digest: 2 };
    let addr = peer.register_applet(RegisterAppletInput {
        applet_agent_pub_key: first_agent,
        applet: sample_applet("chat", "d", 1),
    });
    peer.create_link(addr, second_agent, LinkType::ExternalAgentToApplet, None);
    let playing = peer.get_applets_i_am_playing();
    assert_eq!(playing.len(), 1);
    assert_eq!(playing[0].1.agent_pub_key, second_agent);
}
