//! Deterministic text encoders for hypergraph snapshots: RDF N-Quads, and
//! GraphML with each hyperedge reified as a node.
use crate::hypergraph::{raws, Hyperedge, HyperedgeId, HypergraphNetwork, NeuronId};
use vstd::prelude::*;

verus! {

broadcast use vstd::seq_lib::group_to_multiset_ensures;

/// `s` is in ascending order (repeats allowed).
pub open spec fn ascending(s: Seq<u32>) -> bool {
    forall|i: int, j: int| 0 <= i < j < s.len() ==> s[i] <= s[j]
}

/// `s` is in strictly ascending order.
pub open spec fn strictly_ascending(s: Seq<u32>) -> bool {
    forall|i: int, j: int| 0 <= i < j < s.len() ==> s[i] < s[j]
}

/// Relies on `slice::sort_unstable`: afterwards the elements are in
/// ascending order and are the same elements, as many times each, as before.
#[verifier::external_body]
fn sort_ascending(v: &mut Vec<u32>)
    ensures
        ascending(final(v)@),
        final(v)@.to_multiset() == old(v)@.to_multiset(),
{
    v.sort_unstable();
}

/// The decimal digit `d` as a character.
pub open spec fn digit_char(d: nat) -> char {
    (48 + d) as char
}

/// Decimal notation of `n`, without leading zeros.
pub open spec fn decimal(n: nat) -> Seq<char>
    decreases n,
{
    if n < 10 {
        seq![digit_char(n)]
    } else {
        decimal(n / 10).push(digit_char(n % 10))
    }
}

fn digit_str(d: u32) -> (r: &'static str)
    requires
        d < 10,
    ensures
        r@ == seq![digit_char(d as nat)],
{
    proof {
        reveal_strlit("0");
        reveal_strlit("1");
        reveal_strlit("2");
        reveal_strlit("3");
        reveal_strlit("4");
        reveal_strlit("5");
        reveal_strlit("6");
        reveal_strlit("7");
        reveal_strlit("8");
        reveal_strlit("9");
    }
    let r = match d {
        0 => "0",
        1 => "1",
        2 => "2",
        3 => "3",
        4 => "4",
        5 => "5",
        6 => "6",
        7 => "7",
        8 => "8",
        _ => "9",
    };
    assert(r@ =~= seq![digit_char(d as nat)]);
    r
}

/// Appends the decimal notation of `n`.
fn append_decimal(buf: &mut String, n: u32)
    ensures
        final(buf)@ == old(buf)@ + decimal(n as nat),
    decreases n,
{
    if n >= 10 {
        append_decimal(buf, n / 10);
    }
    buf.append(digit_str(n % 10));
    assert(buf@ =~= old(buf)@ + decimal(n as nat)) by {
        if n >= 10 {
            assert(decimal(n as nat) == decimal((n / 10) as nat).push(digit_char((n % 10) as nat)));
        }
    }
}

/// The hyperedge identifiers an encoder visits, in order: the allowed ones
/// sorted, or every identifier of the network in ascending order.
pub open spec fn visit_order(ids: Seq<u32>, net: Map<u32, Hyperedge>, allowed: Option<&[u32]>) -> bool {
    match allowed {
        Some(a) => ascending(ids) && ids.to_multiset() == a@.to_multiset(),
        None => strictly_ascending(ids) && forall|x: u32| ids.contains(x) <==> net.contains_key(x),
    }
}

fn hedge_order(net: &HypergraphNetwork, allowed_hids: Option<&[u32]>) -> (r: Vec<u32>)
    requires
        net.wf(),
    ensures
        visit_order(r@, net@, allowed_hids),
{
    match allowed_hids {
        Some(a) => {
            let mut ids = vstd::slice::slice_to_vec(a);
            sort_ascending(&mut ids);
            ids
        },
        None => {
            let hs = net.hyperedge_ids();
            let mut ids: Vec<u32> = Vec::new();
            let mut i: usize = 0;
            while i < hs.len()
                invariant
                    i <= hs@.len(),
                    ids@.len() == i,
                    forall|k: int| 0 <= k < i ==> #[trigger] ids@[k] == hs@[k].raw(),
                decreases hs@.len() - i,
            {
                ids.push(hs[i].raw());
                i = i + 1;
            }
            assert forall|x: u32| ids@.contains(x) <==> net@.contains_key(x) by {
                if ids@.contains(x) {
                    let k = choose|k: int| 0 <= k < ids@.len() && ids@[k] == x;
                    assert(hs@[k].raw() == x);
                }
                if net@.contains_key(x) {
                    let k = choose|k: int| 0 <= k < hs@.len() && #[trigger] hs@[k].raw() == x;
                    assert(ids@[k] == x);
                }
            }
            ids
        },
    }
}

/// One N-Quad line relating hyperedge `h` to vertex `v` by `rel`.
pub open spec fn quad(h: u32, rel: Seq<char>, v: u32) -> Seq<char> {
    "<https://ndfh.example.org/vocab/hedge/h"@ + decimal(h as nat) + "> <https://ndfh.example.org/vocab/"@
        + rel + "> <https://ndfh.example.org/vocab/vertex/v"@ + decimal(v as nat) + "> .\n"@
}

/// The lines relating hyperedge `h` to each vertex of `vs` in turn.
pub open spec fn quads(h: u32, rel: Seq<char>, vs: Seq<u32>) -> Seq<char>
    decreases vs.len(),
{
    if vs.len() == 0 {
        Seq::empty()
    } else {
        quads(h, rel, vs.drop_last()) + quad(h, rel, vs.last())
    }
}

/// The lines of hyperedge `h`: one per source, then one per target.
pub open spec fn edge_quads(h: u32, e: Hyperedge) -> Seq<char> {
    quads(h, "hasTail"@, raws(e.sources@)) + quads(h, "hasHead"@, raws(e.targets@))
}

/// The lines of the hyperedges `ids` that are present in `net`, in order.
pub open spec fn rdf_body(ids: Seq<u32>, net: Map<u32, Hyperedge>) -> Seq<char>
    decreases ids.len(),
{
    if ids.len() == 0 {
        Seq::empty()
    } else {
        rdf_body(ids.drop_last(), net) + if net.contains_key(ids.last()) {
            edge_quads(ids.last(), net[ids.last()])
        } else {
            Seq::empty()
        }
    }
}

/// The N-Quads document: the lines, or a single line break when there are none.
pub open spec fn rdf_text(ids: Seq<u32>, net: Map<u32, Hyperedge>) -> Seq<char> {
    if rdf_body(ids, net).len() == 0 {
        "\n"@
    } else {
        rdf_body(ids, net)
    }
}

fn append_quads(buf: &mut String, h: u32, rel: &str, vs: &Vec<NeuronId>)
    ensures
        final(buf)@ == old(buf)@ + quads(h, rel@, raws(vs@)),
{
    let ghost start = buf@;
    let mut j: usize = 0;
    while j < vs.len()
        invariant
            j <= vs@.len(),
            buf@ == start + quads(h, rel@, raws(vs@).take(j as int)),
        decreases vs@.len() - j,
    {
        buf.append("<https://ndfh.example.org/vocab/hedge/h");
        append_decimal(buf, h);
        buf.append("> <https://ndfh.example.org/vocab/");
        buf.append(rel);
        buf.append("> <https://ndfh.example.org/vocab/vertex/v");
        append_decimal(buf, vs[j].raw());
        buf.append("> .\n");
        assert(raws(vs@).take(j + 1).drop_last() =~= raws(vs@).take(j as int));
        assert(buf@ =~= start + quads(h, rel@, raws(vs@).take(j + 1)));
        j = j + 1;
    }
    assert(raws(vs@).take(j as int) =~= raws(vs@));
}

/// Encodes the hyperedges of `net` as RDF N-Quads: for each visited
/// hyperedge present in `net`, one `hasTail` line per source and then one
/// `hasHead` line per target.
pub fn encode_rdf_nquads(net: &HypergraphNetwork, allowed_hids: Option<&[u32]>) -> (r: String)
    requires
        net.wf(),
    ensures
        exists|ids: Seq<u32>| visit_order(ids, net@, allowed_hids) && r@ == rdf_text(ids, net@),
{
    let ids = hedge_order(net, allowed_hids);
    let mut buf = String::new();
    let mut k: usize = 0;
    while k < ids.len()
        invariant
            net.wf(),
            k <= ids@.len(),
            buf@ == rdf_body(ids@.take(k as int), net@),
        decreases ids@.len() - k,
    {
        let h = ids[k];
        match net.get_hyperedge(HyperedgeId::from(h)) {
            Some(e) => {
                append_quads(&mut buf, h, "hasTail", &e.sources);
                append_quads(&mut buf, h, "hasHead", &e.targets);
            },
            None => {},
        }
        assert(ids@.take(k + 1).drop_last() =~= ids@.take(k as int));
        assert(buf@ =~= rdf_body(ids@.take(k + 1), net@));
        k = k + 1;
    }
    assert(ids@.take(k as int) =~= ids@);
    if buf.as_str().unicode_len() == 0 {
        buf.append("\n");
    }
    assert(buf@ == rdf_text(ids@, net@));
    buf
}

/// Vertex `v` is a source or a target of one of the hyperedges `ids`
/// present in `net`.
pub open spec fn touched(ids: Seq<u32>, net: Map<u32, Hyperedge>, v: u32) -> bool {
    exists|k: int|
        0 <= k < ids.len() && net.contains_key(#[trigger] ids[k]) && (raws(net[ids[k]].sources@).contains(v)
            || raws(net[ids[k]].targets@).contains(v))
}

pub open spec fn graphml_header() -> Seq<char> {
    "<?xml version=\"1.0\" encoding=\"UTF-8\"?>\n<graphml xmlns=\"http://graphml.graphdrawing.org/xmlns\">\n<graph edgedefault=\"directed\">\n"@
}

pub open spec fn graphml_footer() -> Seq<char> {
    "</graph>\n</graphml>\n"@
}

/// One node element per vertex of `vs`.
pub open spec fn vertex_nodes(vs: Seq<u32>) -> Seq<char>
    decreases vs.len(),
{
    if vs.len() == 0 {
        Seq::empty()
    } else {
        vertex_nodes(vs.drop_last()) + "<node id=\"v"@ + decimal(vs.last() as nat) + "\"/>\n"@
    }
}

/// One arc from each vertex of `vs` to hyperedge node `h`.
pub open spec fn tail_arcs(h: u32, vs: Seq<u32>) -> Seq<char>
    decreases vs.len(),
{
    if vs.len() == 0 {
        Seq::empty()
    } else {
        tail_arcs(h, vs.drop_last()) + "<edge source=\"v"@ + decimal(vs.last() as nat) + "\" target=\"h"@
            + decimal(h as nat) + "\"/>\n"@
    }
}

/// One arc from hyperedge node `h` to each vertex of `vs`.
pub open spec fn head_arcs(h: u32, vs: Seq<u32>) -> Seq<char>
    decreases vs.len(),
{
    if vs.len() == 0 {
        Seq::empty()
    } else {
        head_arcs(h, vs.drop_last()) + "<edge source=\"h"@ + decimal(h as nat) + "\" target=\"v"@
            + decimal(vs.last() as nat) + "\"/>\n"@
    }
}

/// A node for hyperedge `h`, followed, when the hyperedge is in `net`, by
/// its arcs from the sources and to the targets.
pub open spec fn hedge_block(h: u32, net: Map<u32, Hyperedge>) -> Seq<char> {
    "<node id=\"h"@ + decimal(h as nat) + "\"/>\n"@ + if net.contains_key(h) {
        tail_arcs(h, raws(net[h].sources@)) + head_arcs(h, raws(net[h].targets@))
    } else {
        Seq::empty()
    }
}

/// The blocks of the hyperedges `ids`, in order.
pub open spec fn hedge_blocks(ids: Seq<u32>, net: Map<u32, Hyperedge>) -> Seq<char>
    decreases ids.len(),
{
    if ids.len() == 0 {
        Seq::empty()
    } else {
        hedge_blocks(ids.drop_last(), net) + hedge_block(ids.last(), net)
    }
}

pub open spec fn graphml_text(ids: Seq<u32>, vs: Seq<u32>, net: Map<u32, Hyperedge>) -> Seq<char> {
    graphml_header() + vertex_nodes(vs) + hedge_blocks(ids, net) + graphml_footer()
}

proof fn lemma_contains_concat(a: Seq<u32>, b: Seq<u32>, v: u32)
    ensures
        (a + b).contains(v) <==> a.contains(v) || b.contains(v),
{
    if (a + b).contains(v) {
        let i = choose|i: int| 0 <= i < (a + b).len() && (a + b)[i] == v;
        if i >= a.len() {
            assert(b[i - a.len()] == v);
        }
    }
    if a.contains(v) {
        let i = choose|i: int| 0 <= i < a.len() && a[i] == v;
        assert((a + b)[i] == v);
    }
    if b.contains(v) {
        let i = choose|i: int| 0 <= i < b.len() && b[i] == v;
        assert((a + b)[a.len() + i] == v);
    }
}

proof fn lemma_touched_step(ids: Seq<u32>, net: Map<u32, Hyperedge>, k: int)
    requires
        0 <= k < ids.len(),
    ensures
        forall|v: u32| touched(ids.take(k + 1), net, v) <==> touched(ids.take(k), net, v) || (net.contains_key(ids[k])
            && (raws(net[ids[k]].sources@).contains(v) || raws(net[ids[k]].targets@).contains(v))),
{
    let pre = ids.take(k);
    let cur = ids.take(k + 1);
    assert forall|v: u32| touched(cur, net, v) <==> touched(pre, net, v) || (net.contains_key(ids[k])
        && (raws(net[ids[k]].sources@).contains(v) || raws(net[ids[k]].targets@).contains(v))) by {
        if touched(cur, net, v) {
            let q = choose|q: int| 0 <= q < cur.len() && net.contains_key(#[trigger] cur[q])
                && (raws(net[cur[q]].sources@).contains(v) || raws(net[cur[q]].targets@).contains(v));
            if q < k {
                assert(pre[q] == cur[q]);
            }
        }
        if touched(pre, net, v) {
            let q = choose|q: int| 0 <= q < pre.len() && net.contains_key(#[trigger] pre[q])
                && (raws(net[pre[q]].sources@).contains(v) || raws(net[pre[q]].targets@).contains(v));
            assert(cur[q] == pre[q]);
        }
        if net.contains_key(ids[k]) && (raws(net[ids[k]].sources@).contains(v) || raws(net[ids[k]].targets@).contains(v)) {
            assert(cur[k] == ids[k]);
        }
    }
}

/// Appends the raw identifiers of `ns`.
fn extend_raws(all: &mut Vec<u32>, ns: &Vec<NeuronId>)
    ensures
        final(all)@ == old(all)@ + raws(ns@),
{
    let ghost start = all@;
    let mut j: usize = 0;
    while j < ns.len()
        invariant
            j <= ns@.len(),
            all@ == start + raws(ns@).take(j as int),
        decreases ns@.len() - j,
    {
        all.push(ns[j].raw());
        assert(all@ =~= start + raws(ns@).take(j + 1));
        j = j + 1;
    }
    assert(raws(ns@).take(j as int) =~= raws(ns@));
}

/// The vertices touched by the hyperedges `ids`, ascending, each once.
fn touched_vertices(net: &HypergraphNetwork, ids: &Vec<u32>) -> (r: Vec<u32>)
    requires
        net.wf(),
    ensures
        strictly_ascending(r@),
        forall|v: u32| r@.contains(v) <==> touched(ids@, net@, v),
{
    let mut all: Vec<u32> = Vec::new();
    let mut k: usize = 0;
    while k < ids.len()
        invariant
            net.wf(),
            k <= ids@.len(),
            forall|v: u32| all@.contains(v) <==> touched(ids@.take(k as int), net@, v),
        decreases ids@.len() - k,
    {
        let ghost before = all@;
        let h = ids[k];
        proof {
            lemma_touched_step(ids@, net@, k as int);
        }
        match net.get_hyperedge(HyperedgeId::from(h)) {
            Some(e) => {
                extend_raws(&mut all, &e.sources);
                extend_raws(&mut all, &e.targets);
                assert forall|v: u32| all@.contains(v) <==> touched(ids@.take(k + 1), net@, v) by {
                    lemma_contains_concat(before, raws(e.sources@), v);
                    lemma_contains_concat(before + raws(e.sources@), raws(e.targets@), v);
                    assert(before.contains(v) <==> touched(ids@.take(k as int), net@, v));
                }
            },
            None => {
                assert forall|v: u32| all@.contains(v) <==> touched(ids@.take(k + 1), net@, v) by {
                    assert(before.contains(v) <==> touched(ids@.take(k as int), net@, v));
                }
            },
        }
        k = k + 1;
    }
    assert(ids@.take(k as int) =~= ids@);
    assert(forall|v: u32| all@.contains(v) <==> touched(ids@, net@, v));
    let ghost unsorted = all@;
    sort_ascending(&mut all);
    assert forall|v: u32| all@.contains(v) <==> unsorted.contains(v) by {
        assert(all@.to_multiset().count(v) == unsorted.to_multiset().count(v));
    }
    let mut r: Vec<u32> = Vec::new();
    let mut i: usize = 0;
    while i < all.len()
        invariant
            i <= all@.len(),
            ascending(all@),
            strictly_ascending(r@),
            forall|v: u32| r@.contains(v) <==> all@.take(i as int).contains(v),
            r@.len() > 0 ==> i > 0 && r@.last() == all@[i - 1],
        decreases all@.len() - i,
    {
        let v = all[i];
        let ghost r0 = r@;
        if r.len() == 0 || r[r.len() - 1] != v {
            r.push(v);
        }
        let ghost pre = all@.take(i as int);
        assert(all@.take(i + 1) =~= pre.push(v));
        assert forall|w: u32| r@.contains(w) <==> all@.take(i + 1).contains(w) by {
            lemma_contains_concat(pre, seq![v], w);
            lemma_contains_concat(r0, seq![v], w);
            assert(pre.push(v) =~= pre + seq![v]);
            assert(r0.push(v) =~= r0 + seq![v]);
            if r0.len() > 0 {
                assert(pre[i - 1] == r0.last());
            }
        }
        i = i + 1;
    }
    assert(all@.take(i as int) =~= all@);
    assert forall|v: u32| r@.contains(v) <==> touched(ids@, net@, v) by {
        assert(all@.contains(v) <==> unsorted.contains(v));
        assert(unsorted.contains(v) <==> touched(ids@, net@, v));
    }
    r
}

fn append_tail_arcs(buf: &mut String, h: u32, vs: &Vec<NeuronId>)
    ensures
        final(buf)@ == old(buf)@ + tail_arcs(h, raws(vs@)),
{
    let ghost start = buf@;
    let mut j: usize = 0;
    while j < vs.len()
        invariant
            j <= vs@.len(),
            buf@ == start + tail_arcs(h, raws(vs@).take(j as int)),
        decreases vs@.len() - j,
    {
        buf.append("<edge source=\"v");
        append_decimal(buf, vs[j].raw());
        buf.append("\" target=\"h");
        append_decimal(buf, h);
        buf.append("\"/>\n");
        assert(raws(vs@).take(j + 1).drop_last() =~= raws(vs@).take(j as int));
        assert(buf@ =~= start + tail_arcs(h, raws(vs@).take(j + 1)));
        j = j + 1;
    }
    assert(raws(vs@).take(j as int) =~= raws(vs@));
}

fn append_head_arcs(buf: &mut String, h: u32, vs: &Vec<NeuronId>)
    ensures
        final(buf)@ == old(buf)@ + head_arcs(h, raws(vs@)),
{
    let ghost start = buf@;
    let mut j: usize = 0;
    while j < vs.len()
        invariant
            j <= vs@.len(),
            buf@ == start + head_arcs(h, raws(vs@).take(j as int)),
        decreases vs@.len() - j,
    {
        buf.append("<edge source=\"h");
        append_decimal(buf, h);
        buf.append("\" target=\"v");
        append_decimal(buf, vs[j].raw());
        buf.append("\"/>\n");
        assert(raws(vs@).take(j + 1).drop_last() =~= raws(vs@).take(j as int));
        assert(buf@ =~= start + head_arcs(h, raws(vs@).take(j + 1)));
        j = j + 1;
    }
    assert(raws(vs@).take(j as int) =~= raws(vs@));
}

fn append_hedge_block(buf: &mut String, net: &HypergraphNetwork, h: u32)
    requires
        net.wf(),
    ensures
        final(buf)@ == old(buf)@ + hedge_block(h, net@),
{
    let ghost start = buf@;
    buf.append("<node id=\"h");
    append_decimal(buf, h);
    buf.append("\"/>\n");
    match net.get_hyperedge(HyperedgeId::from(h)) {
        Some(e) => {
            append_tail_arcs(buf, h, &e.sources);
            append_head_arcs(buf, h, &e.targets);
        },
        None => {},
    }
    assert(buf@ =~= start + hedge_block(h, net@));
}

/// Encodes the hyperedges of `net` as a directed GraphML graph: a node per
/// touched vertex (ascending), then for each visited hyperedge a node of its
/// own with arcs from its sources and to its targets.
pub fn encode_graphml(net: &HypergraphNetwork, _include_labels: bool, allowed_hids: Option<&[u32]>) -> (r: String)
    requires
        net.wf(),
    ensures
        exists|ids: Seq<u32>, vs: Seq<u32>|
            visit_order(ids, net@, allowed_hids) && strictly_ascending(vs) && (forall|v: u32|
                vs.contains(v) <==> touched(ids, net@, v)) && r@ == graphml_text(ids, vs, net@),
{
    let ids = hedge_order(net, allowed_hids);
    let vs = touched_vertices(net, &ids);
    let mut buf = String::new();
    buf.append(
        "<?xml version=\"1.0\" encoding=\"UTF-8\"?>\n<graphml xmlns=\"http://graphml.graphdrawing.org/xmlns\">\n<graph edgedefault=\"directed\">\n",
    );
    let mut i: usize = 0;
    while i < vs.len()
        invariant
            i <= vs@.len(),
            buf@ == graphml_header() + vertex_nodes(vs@.take(i as int)),
        decreases vs@.len() - i,
    {
        buf.append("<node id=\"v");
        append_decimal(&mut buf, vs[i]);
        buf.append("\"/>\n");
        assert(vs@.take(i + 1).drop_last() =~= vs@.take(i as int));
        assert(buf@ =~= graphml_header() + vertex_nodes(vs@.take(i + 1)));
        i = i + 1;
    }
    assert(vs@.take(i as int) =~= vs@);
    let ghost prefix = buf@;
    let mut k: usize = 0;
    while k < ids.len()
        invariant
            net.wf(),
            k <= ids@.len(),
            buf@ == prefix + hedge_blocks(ids@.take(k as int), net@),
        decreases ids@.len() - k,
    {
        append_hedge_block(&mut buf, net, ids[k]);
        assert(ids@.take(k + 1).drop_last() =~= ids@.take(k as int));
        assert(buf@ =~= prefix + hedge_blocks(ids@.take(k + 1), net@));
        k = k + 1;
    }
    assert(ids@.take(k as int) =~= ids@);
    buf.append("</graph>\n</graphml>\n");
    assert(buf@ =~= graphml_text(ids@, vs@, net@));
    buf
}

} // verus!
