use shnn_lockfree::export::{encode_graphml, encode_rdf_nquads};
use shnn_lockfree::hypergraph::{Hyperedge, HyperedgeId, HyperedgeType, HypergraphNetwork, NeuronId};
use shnn_lockfree::membership::{HyperedgeCatalog, MembershipLog};
use shnn_lockfree::temporal::AsOfEngine;
use shnn_lockfree::txn::{HeCreate, InMemoryTxn, TxnApi};

fn build_demo_snapshot(as_of: i64) -> HypergraphNetwork {
    let mut txn = InMemoryTxn::default();
    let h_id = txn
        .he_create(HeCreate {
            head_v: 99,
            fe_spec_json: "{}".to_string(),
            state_schema_json: None,
        })
        .expect("he_create");
    txn.mem_add(h_id, 10, as_of - 50).expect("mem_add 10");
    txn.mem_add(h_id, 11, as_of - 30).expect("mem_add 11");
    txn.mem_add(h_id, 12, as_of - 60).expect("mem_add 12");
    txn.mem_rem(h_id, 12, as_of - 40).expect("mem_rem 12");
    txn.snapshot_as_of(as_of)
}

fn raws(ns: &[NeuronId]) -> Vec<u32> {
    ns.iter().map(|n| n.raw()).collect()
}

#[test]
fn append_only_add_rem() {
    let mut log = MembershipLog::new();
    log.add(1, 2001, 100);
    log.remove(1, 2001, 200);
    let rows: Vec<_> = log.iter().collect();
    assert_eq!(rows.len(), 1);
    assert_eq!(rows[0].t_end, Some(200));
}

#[test]
fn snapshot_builds_many_to_one_edges() {
    let mut log = MembershipLog::new();
    log.add(1, 10, 100);
    log.add(1, 11, 120);
    log.add(1, 12, 90);
    log.remove(1, 12, 110);

    let mut cat = HyperedgeCatalog::new();
    cat.register_head(1, 99);

    let net = log.snapshot_as_of_with_catalog(150, &cat);
    let ids = net.hyperedge_ids();
    assert!(ids.iter().any(|h| h.raw() == 1));
    let edge = net.get_hyperedge(HyperedgeId::from(1)).unwrap();
    assert_eq!(edge.targets.len(), 1);
    assert!(edge.sources.len() >= 2);
}

#[test]
fn as_of_snapshot_builds_edges_via_api() {
    let mut txn = InMemoryTxn::default();

    let h_id = txn
        .he_create(HeCreate {
            head_v: 99,
            fe_spec_json: "{}".to_string(),
            state_schema_json: None,
        })
        .expect("he_create");

    txn.mem_add(h_id, 10, 100).expect("mem_add 10");
    txn.mem_add(h_id, 11, 120).expect("mem_add 11");
    txn.mem_add(h_id, 12, 90).expect("mem_add 12");
    txn.mem_rem(h_id, 12, 110).expect("mem_rem 12");

    let net = txn.snapshot_as_of(150);

    let ids = net.hyperedge_ids();
    assert!(
        ids.iter().any(|id| id.raw() == (h_id as u32)),
        "expected hyperedge id {} in snapshot",
        h_id
    );

    let edge = net
        .get_hyperedge(HyperedgeId::from(h_id as u32))
        .expect("edge present");
    assert_eq!(edge.targets.len(), 1, "ManyToOne target cardinality");
    assert!(
        edge.sources.len() >= 2,
        "expected at least sources 10 and 11 active at t=150; got {}",
        edge.sources.len()
    );
}

#[test]
fn graphml_encoder_is_deterministic() {
    let net = build_demo_snapshot(150);
    let allowed_ids: Vec<u32> = {
        let mut ids: Vec<u32> = net.hyperedge_ids().into_iter().map(|h| h.raw()).collect();
        ids.sort_unstable();
        ids
    };
    let s1 = encode_graphml(&net, false, Some(&allowed_ids));
    let s2 = encode_graphml(&net, false, Some(&allowed_ids));
    assert_eq!(
        s1, s2,
        "GraphML encoder output must be byte-stable for same snapshot"
    );
}

#[test]
fn rdf_nquads_encoder_is_deterministic() {
    let net = build_demo_snapshot(150);
    let mut allowed_ids: Vec<u32> = net.hyperedge_ids().into_iter().map(|h| h.raw()).collect();
    allowed_ids.sort_unstable();
    let s1 = encode_rdf_nquads(&net, Some(&allowed_ids));
    let s2 = encode_rdf_nquads(&net, Some(&allowed_ids));
    assert_eq!(
        s1, s2,
        "RDF N-Quads encoder output must be byte-stable for same snapshot"
    );
}

#[test]
fn snapshot_sources_and_targets_are_exact() {
    let net = build_demo_snapshot(150);
    let ids: Vec<u32> = net.hyperedge_ids().into_iter().map(|h| h.raw()).collect();
    assert_eq!(ids, vec![1]);
    let edge = net.get_hyperedge(HyperedgeId::from(1)).unwrap();
    assert_eq!(edge.id().raw(), 1);
    assert_eq!(raws(&edge.sources), vec![10, 11]);
    assert_eq!(raws(&edge.targets), vec![99]);
}

#[test]
fn snapshot_respects_interval_bounds() {
    let mut log = MembershipLog::new();
    log.add(7, 1, 100);
    log.remove(7, 1, 200);
    let mut cat = HyperedgeCatalog::new();
    cat.register_head(7, 5);
    // Start is inclusive, end is exclusive.
    assert!(AsOfEngine::snapshot_with_catalog(&log, &cat, 99).get_hyperedge(HyperedgeId::from(7)).is_none());
    assert!(AsOfEngine::snapshot_with_catalog(&log, &cat, 100).get_hyperedge(HyperedgeId::from(7)).is_some());
    assert!(AsOfEngine::snapshot_with_catalog(&log, &cat, 199).get_hyperedge(HyperedgeId::from(7)).is_some());
    assert!(AsOfEngine::snapshot_with_catalog(&log, &cat, 200).get_hyperedge(HyperedgeId::from(7)).is_none());
    // Without a catalog no hyperedge has a head.
    assert!(AsOfEngine::snapshot(&log, 150).hyperedge_ids().is_empty());
}

#[test]
fn snapshot_skips_hyperedges_without_head() {
    let mut log = MembershipLog::new();
    log.add(1, 10, 0);
    log.add(2, 20, 0);
    let mut cat = HyperedgeCatalog::new();
    cat.extend_heads(vec![(2, 8), (3, 9), (2, 6)]);
    assert_eq!(cat.head_of(2), Some(6));
    assert_eq!(cat.head_of(1), None);
    let net = log.snapshot_as_of_with_catalog(5, &cat);
    let ids: Vec<u32> = net.hyperedge_ids().into_iter().map(|h| h.raw()).collect();
    assert_eq!(ids, vec![2]);
    assert_eq!(raws(&net.get_hyperedge(HyperedgeId::from(2)).unwrap().targets), vec![6]);
}

#[test]
fn remove_closes_latest_open_row_only() {
    let mut log = MembershipLog::new();
    log.add(1, 5, 10);
    log.add(1, 5, 20);
    log.remove(1, 5, 30);
    log.remove(1, 6, 30);
    let ends: Vec<Option<i64>> = log.iter().map(|r| r.t_end).collect();
    assert_eq!(ends, vec![None, Some(30)]);
    log.remove(1, 5, 40);
    let ends: Vec<Option<i64>> = log.iter().map(|r| r.t_end).collect();
    assert_eq!(ends, vec![Some(40), Some(30)]);
}

#[test]
fn network_rejects_duplicates_and_keeps_ids_sorted() {
    let mut net = HypergraphNetwork::new();
    let e = |id: u32| {
        Hyperedge::new(
            HyperedgeId::from(id),
            vec![NeuronId::from(1)],
            vec![NeuronId::from(2)],
            HyperedgeType::ManyToOne,
        )
        .unwrap()
    };
    assert!(net.add_hyperedge(e(5)).is_ok());
    assert!(net.add_hyperedge(e(2)).is_ok());
    assert!(net.add_hyperedge(e(9)).is_ok());
    assert!(net.add_hyperedge(e(5)).is_err());
    let ids: Vec<u32> = net.hyperedge_ids().into_iter().map(|h| h.raw()).collect();
    assert_eq!(ids, vec![2, 5, 9]);
    assert!(Hyperedge::new(HyperedgeId::from(1), vec![], vec![NeuronId::from(2)], HyperedgeType::ManyToOne).is_err());
    assert!(Hyperedge::new(HyperedgeId::from(1), vec![NeuronId::from(2)], vec![], HyperedgeType::ManyToOne).is_err());
}

#[test]
fn txn_assigns_increasing_ids_and_accepts_no_op_calls() {
    let mut txn = InMemoryTxn::default();
    let a = txn.he_create(HeCreate { head_v: 1, fe_spec_json: String::new(), state_schema_json: None }).unwrap();
    let b = TxnApi::he_create(&mut txn, HeCreate { head_v: 2, fe_spec_json: String::new(), state_schema_json: None })
        .unwrap();
    assert_eq!((a, b), (1, 2));
    assert!(txn.he_retire(a).is_ok());
    assert!(txn.state_upd(a, "set", "{}").is_ok());
    assert!(txn.fire_append(a, 5, &[1, 2, 3]).is_ok());
    assert_eq!(txn.catalog.head_of(b), Some(2));
}

#[test]
fn rdf_nquads_exact_output() {
    let net = build_demo_snapshot(150);
    let s = encode_rdf_nquads(&net, None);
    let b = "https://ndfh.example.org/vocab/";
    let expected = format!(
        "<{b}hedge/h1> <{b}hasTail> <{b}vertex/v10> .\n<{b}hedge/h1> <{b}hasTail> <{b}vertex/v11> .\n<{b}hedge/h1> <{b}hasHead> <{b}vertex/v99> .\n"
    );
    assert_eq!(s, expected);
    // Unknown or no hyperedges give a single line break.
    assert_eq!(encode_rdf_nquads(&net, Some(&[42])), "\n");
    assert_eq!(encode_rdf_nquads(&HypergraphNetwork::new(), None), "\n");
}

#[test]
fn graphml_exact_output() {
    let net = build_demo_snapshot(150);
    let s = encode_graphml(&net, false, Some(&[3, 1]));
    let expected = [
        "<?xml version=\"1.0\" encoding=\"UTF-8\"?>\n",
        "<graphml xmlns=\"http://graphml.graphdrawing.org/xmlns\">\n",
        "<graph edgedefault=\"directed\">\n",
        "<node id=\"v10\"/>\n",
        "<node id=\"v11\"/>\n",
        "<node id=\"v99\"/>\n",
        "<node id=\"h1\"/>\n",
        "<edge source=\"v10\" target=\"h1\"/>\n",
        "<edge source=\"v11\" target=\"h1\"/>\n",
        "<edge source=\"h1\" target=\"v99\"/>\n",
        "<node id=\"h3\"/>\n",
        "</graph>\n</graphml>\n",
    ]
    .concat();
    assert_eq!(s, expected);
}

#[test]
fn graphml_lists_shared_vertices_once_in_order() {
    let mut net = HypergraphNetwork::new();
    let mk = |id: u32, s: Vec<u32>, t: Vec<u32>| {
        Hyperedge::new(
            HyperedgeId::from(id),
            s.into_iter().map(NeuronId::from).collect(),
            t.into_iter().map(NeuronId::from).collect(),
            HyperedgeType::ManyToOne,
        )
        .unwrap()
    };
    net.add_hyperedge(mk(20, vec![305, 7], vec![1000])).unwrap();
    net.add_hyperedge(mk(4, vec![7], vec![305])).unwrap();
    let s = encode_graphml(&net, true, None);
    let nodes: Vec<&str> = s.lines().filter(|l| l.starts_with("<node id=\"v")).collect();
    assert_eq!(nodes, vec!["<node id=\"v7\"/>", "<node id=\"v305\"/>", "<node id=\"v1000\"/>"]);
    let hedges: Vec<&str> = s.lines().filter(|l| l.starts_with("<node id=\"h")).collect();
    assert_eq!(hedges, vec!["<node id=\"h4\"/>", "<node id=\"h20\"/>"]);
}
