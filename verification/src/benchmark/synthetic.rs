use vstd::prelude::*;

use crate::graph::linked::{
    empty_graph, lemma_linked_counts, lemma_linked_empty, lemma_linked_with_link,
    lemma_link_edges_outside, lemma_link_edges_push, lemma_linked_with_vertex, link_edges_at, linked_graph, links_within,
    Link,
};
use crate::graph::{Edge, EdgeType, GraphView, VertexKind};
use crate::models::{CategoryId, CustomerId, CustomerView, ProductId, VertexId};
use crate::repository::{Store, StoreView, CATEGORY_EDGE_WEIGHT};
use crate::models::price::{
    binary64_of_whole, binary64_value_of_whole, is_valid_price, rounded_value, whole_as_binary64,
};
use crate::text::{decimal_text, digit_char, is_blank_text, is_white_space};
use vstd::string::StringExecFns;

verus! {

/// The text of the decimal digit `d`.
fn digit_text(d: usize) -> (r: &'static str)
    requires
        d < 10,
    ensures
        r@ == seq![digit_char(d as nat)],
{
    proof {
        reveal_strlit("0");
        reveal_strlit("1");
        reveal_strlit("2");
        reveal_strlit("3");
        reveal_strlit("4");
        reveal_strlit("5");
        reveal_strlit("6");
        reveal_strlit("7");
        reveal_strlit("8");
        reveal_strlit("9");
    }
    let r = if d == 0 {
        "0"
    } else if d == 1 {
        "1"
    } else if d == 2 {
        "2"
    } else if d == 3 {
        "3"
    } else if d == 4 {
        "4"
    } else if d == 5 {
        "5"
    } else if d == 6 {
        "6"
    } else if d == 7 {
        "7"
    } else if d == 8 {
        "8"
    } else {
        "9"
    };
    assert(r@ =~= seq![digit_char(d as nat)]);
    r
}

/// Appends the decimal digits of `n`, most significant first.
fn append_decimal(s: &mut String, n: usize)
    ensures
        final(s)@ == old(s)@ + decimal_text(n as nat),
    decreases n,
{
    if n < 10 {
        s.append(digit_text(n));
    } else {
        append_decimal(s, n / 10);
        s.append(digit_text(n % 10));
        assert(decimal_text(n as nat) == decimal_text((n / 10) as nat).push(digit_char((n % 10) as nat)));
        assert(old(s)@ + decimal_text(n as nat) =~= old(s)@ + decimal_text((n / 10) as nat) + seq![
            digit_char((n % 10) as nat),
        ]);
    }
}

/// The name of the `i`-th synthetic product: `Produto-` followed by the decimal
/// digits of `i`.
fn product_label(i: usize) -> (r: String)
    ensures
        r@ == seq!['P', 'r', 'o', 'd', 'u', 't', 'o', '-'] + decimal_text(i as nat),
{
    proof {
        reveal_strlit("Produto-");
    }
    let mut s = "Produto-".to_owned();
    assert(s@ =~= seq!['P', 'r', 'o', 'd', 'u', 't', 'o', '-']);
    append_decimal(&mut s, i);
    s
}

/// The largest number of products for which a synthetic catalogue can be built without
/// running out of ids.
pub open spec fn synthetic_capacity() -> int {
    u64::MAX - 3
}

/// The price of the `i`-th synthetic product, `100.0 + i as f64`, as its binary64
/// encoding: `i` rounded to the nearest binary64 number, plus 100, rounded again.
pub open spec fn synthetic_price(i: nat) -> u64 {
    whole_as_binary64(rounded_value(i) + 100)
}

/// The binary64 encoding of `100.0`, the seed product's price.
pub const SEED_PRICE: u64 = 0x4059_0000_0000_0000;

fn synthetic_price_bits(i: usize) -> (r: u64)
    ensures
        r == synthetic_price(i as nat),
        is_valid_price(r),
{
    let v = binary64_value_of_whole(i as u128);
    binary64_of_whole(v + 100)
}

/// `Produto-` followed by the decimal digits of `i`.
pub open spec fn synthetic_name(i: nat) -> Seq<char> {
    seq!['P', 'r', 'o', 'd', 'u', 't', 'o', '-'] + decimal_text(i)
}

/// The weight, in thousandths, of the similarity edges of the synthetic chain.
pub const SYNTHETIC_SIMILARITY: u32 = 850;

/// The vertex kinds of a catalogue of `n` products, in order of creation: the
/// category (vertex 1), then products `1..=n` (vertices `2..=n + 1`).
pub open spec fn synthetic_kinds(n: nat) -> Seq<VertexKind> {
    Seq::new(
        n + 1,
        |j: int|
            if j == 0 {
                VertexKind::Category(CategoryId(1))
            } else {
                VertexKind::Product(ProductId(j as u64))
            },
    )
}

/// The link that ties product `k` (vertex `k + 1`) to the category (vertex 1).
pub open spec fn category_link(k: nat) -> Link {
    Link {
        from: (k + 1) as u64,
        to: 1,
        edge_type: EdgeType::BelongsTo,
        weight: CATEGORY_EDGE_WEIGHT,
    }
}

/// The similarity link from product `k` to product `k + 1`.
pub open spec fn chain_link(k: nat) -> Link {
    Link {
        from: (k + 1) as u64,
        to: (k + 2) as u64,
        edge_type: EdgeType::Similar,
        weight: SYNTHETIC_SIMILARITY,
    }
}

/// The links of a catalogue of `n` products, in order of insertion: product 1's
/// category link, then for each later product its category link followed by the
/// similarity link from the product before it.
pub open spec fn synthetic_chain(n: nat) -> Seq<Link>
    decreases n,
{
    if n <= 1 {
        seq![category_link(1)]
    } else {
        synthetic_chain((n - 1) as nat).push(category_link(n)).push(chain_link((n - 1) as nat))
    }
}

/// The whole synthetic graph for `n` products: the catalogue's vertices and links,
/// then the customer (vertex `n + 2`) and its purchase of product 1.
pub open spec fn synthetic_graph(n: nat) -> GraphView {
    linked_graph(
        synthetic_kinds(n).push(VertexKind::Customer(CustomerId(1))),
        synthetic_chain(n).push(
            Link { from: (n + 2) as u64, to: 2, edge_type: EdgeType::Purchased, weight: 1000 },
        ),
    )
}

proof fn lemma_synthetic_chain(n: nat)
    requires
        1 <= n,
        n + 2 <= u64::MAX,
    ensures
        links_within(synthetic_chain(n), n + 1),
        synthetic_chain(n).len() == 2 * n - 1,
    decreases n,
{
    if n > 1 {
        lemma_synthetic_chain((n - 1) as nat);
        let c = synthetic_chain((n - 1) as nat);
        let d = synthetic_chain(n);
        assert forall|i: int| 0 <= i < d.len() implies 1 <= #[trigger] d[i].from <= n + 1 && 1
            <= d[i].to <= n + 1 by {
            if i < c.len() {
                assert(d[i] == c[i]);
                assert(1 <= c[i].from <= n && 1 <= c[i].to <= n);
            } else if i == c.len() {
                assert(d[i] == category_link(n));
            } else {
                assert(d[i] == chain_link((n - 1) as nat));
            }
        }
    }
}

/// The tie of a product to the category vertex 1.
pub open spec fn to_category() -> Edge {
    Edge { to: VertexId(1), edge_type: EdgeType::BelongsTo, weight: CATEGORY_EDGE_WEIGHT }
}

/// A similarity edge of the chain towards vertex `v`.
pub open spec fn similar_to(v: nat) -> Edge {
    Edge { to: VertexId(v as u64), edge_type: EdgeType::Similar, weight: SYNTHETIC_SIMILARITY }
}

/// The edges that the chain of `n` products stores at product `k` (vertex `k + 1`): its
/// tie to the category, then its similarity to product `k - 1` (if `k > 1`), then to
/// product `k + 1` (if `k < n`).
pub open spec fn chained_edges(n: nat, k: nat) -> Seq<Edge> {
    seq![to_category()] + (if k > 1 {
        seq![similar_to(k)]
    } else {
        Seq::empty()
    }) + (if k < n {
        seq![similar_to(k + 2)]
    } else {
        Seq::empty()
    })
}

proof fn lemma_chain_edges_at_product(n: nat, k: nat)
    requires
        1 <= k <= n,
        n + 2 <= u64::MAX,
    ensures
        link_edges_at(synthetic_chain(n), (k + 1) as u64) == chained_edges(n, k),
    decreases n,
{
    let v = (k + 1) as u64;
    if n == 1 {
        let c = synthetic_chain(1);
        assert(c == Seq::<Link>::empty().push(category_link(1)));
        lemma_link_edges_push(Seq::<Link>::empty(), category_link(1), v);
        assert(link_edges_at(Seq::<Link>::empty(), v) == Seq::<Edge>::empty());
        assert(link_edges_at(c, v) =~= chained_edges(n, k));
    } else {
        let c = synthetic_chain((n - 1) as nat);
        let c1 = c.push(category_link(n));
        lemma_link_edges_push(c, category_link(n), v);
        lemma_link_edges_push(c1, chain_link((n - 1) as nat), v);
        if k < n {
            lemma_chain_edges_at_product((n - 1) as nat, k);
        } else {
            lemma_synthetic_chain((n - 1) as nat);
            lemma_link_edges_outside(c, n, v);
        }
        assert(link_edges_at(synthetic_chain(n), v) =~= chained_edges(n, k));
    }
}

/// The ties that the chain of `n` products stores at the category vertex: one per
/// product, in product order.
pub open spec fn category_ties(n: nat) -> Seq<Edge> {
    Seq::new(
        n,
        |j: int|
            Edge {
                to: VertexId((j + 2) as u64),
                edge_type: EdgeType::BelongsTo,
                weight: CATEGORY_EDGE_WEIGHT,
            },
    )
}

proof fn lemma_chain_edges_at_category(n: nat)
    requires
        1 <= n,
        n + 2 <= u64::MAX,
    ensures
        link_edges_at(synthetic_chain(n), 1) == category_ties(n),
    decreases n,
{
    if n == 1 {
        let c = synthetic_chain(1);
        assert(c == Seq::<Link>::empty().push(category_link(1)));
        lemma_link_edges_push(Seq::<Link>::empty(), category_link(1), 1);
        assert(link_edges_at(Seq::<Link>::empty(), 1) == Seq::<Edge>::empty());
        assert(link_edges_at(c, 1) =~= category_ties(n));
    } else {
        let c = synthetic_chain((n - 1) as nat);
        let c1 = c.push(category_link(n));
        lemma_link_edges_push(c, category_link(n), 1);
        lemma_link_edges_push(c1, chain_link((n - 1) as nat), 1);
        lemma_chain_edges_at_category((n - 1) as nat);
        assert(link_edges_at(synthetic_chain(n), 1) =~= category_ties(n));
    }
}

/// The synthetic products form a chain: in the graph of `n` products, product `k`
/// (vertex `k + 1`) is tied to the category and is similar, with weight
/// `SYNTHETIC_SIMILARITY`, exactly to products `k - 1` and `k + 1` where they exist;
/// product 1 also holds the customer's purchase; the category holds one tie per
/// product, in product order; and the customer (vertex `n + 2`) holds only its purchase
/// of product 1.
pub proof fn synthetic_products_are_chained(n: nat)
    requires
        1 <= n,
        n <= synthetic_capacity(),
    ensures
        forall|k: nat|
            1 <= k <= n ==> #[trigger] synthetic_graph(n).edges_of((k + 1) as u64) == (if k
                == 1 {
                chained_edges(n, k).push(
                    Edge {
                        to: VertexId((n + 2) as u64),
                        edge_type: EdgeType::Purchased,
                        weight: 1000,
                    },
                )
            } else {
                chained_edges(n, k)
            }),
        synthetic_graph(n).edges_of(1) == category_ties(n),
        synthetic_graph(n).edges_of((n + 2) as u64) == seq![
            Edge { to: VertexId(2), edge_type: EdgeType::Purchased, weight: 1000 },
        ],
{
    let c = synthetic_chain(n);
    let purchase = Link { from: (n + 2) as u64, to: 2, edge_type: EdgeType::Purchased, weight: 1000 };
    lemma_synthetic_chain(n);
    lemma_link_edges_push(c, purchase, 1);
    lemma_link_edges_push(c, purchase, (n + 2) as u64);
    lemma_link_edges_outside(c, n + 1, (n + 2) as u64);
    assert forall|k: nat| 1 <= k <= n implies #[trigger] synthetic_graph(n).edges_of((k + 1) as u64)
        == (if k == 1 {
        chained_edges(n, k).push(
            Edge { to: VertexId((n + 2) as u64), edge_type: EdgeType::Purchased, weight: 1000 },
        )
    } else {
        chained_edges(n, k)
    }) by {
        lemma_chain_edges_at_product(n, k);
        lemma_link_edges_push(c, purchase, (k + 1) as u64);
    }
    lemma_chain_edges_at_category(n);
}

/// The catalogue holds products `1..=n`: product 1 is the seed (`Produto-0`, priced
/// 100.0), product
/// `k > 1` is `Produto-{k-1}` priced at `synthetic_price(k - 1)`; all are in category 1,
/// `Eletrônicos`, whose vertex is 1; and product `k` has vertex `k + 1`.
pub open spec fn synthetic_catalogue(s: StoreView, n: u64) -> bool {
    &&& s.categories.dom() == set![1u64]
    &&& s.categories[1].name@ == "Eletrônicos"@
    &&& s.category_vertices == map![1u64 => VertexId(1)]
    &&& s.products.dom() == Set::new(|k: u64| 1 <= k <= n)
    &&& s.products[1].name@ == "Produto-0"@
    &&& s.products[1].price_bits == SEED_PRICE
    &&& s.products[1].description@ == "seed"@
    &&& forall|k: u64| #[trigger]
        s.products.contains_key(k) ==> {
            &&& s.products[k].category_id == CategoryId(1)
            &&& s.product_vertices[k] == VertexId((k + 1) as u64)
            &&& k > 1 ==> {
                &&& s.products[k].name@ == synthetic_name((k - 1) as nat)
                &&& s.products[k].price_bits == synthetic_price((k - 1) as nat)
                &&& s.products[k].description@ == "synthetic"@
            }
        }
}

/// What product `k` of a chain of `n` products is linked to, in order: its category,
/// the product before it and the product after it (where they exist, `Similar` with
/// weight `SYNTHETIC_SIMILARITY`), and, for product 1, the customer who bought it.
pub open spec fn product_neighbourhood(s: StoreView, n: nat, k: u64) -> Seq<Edge> {
    seq![
        Edge {
            to: s.category_vertices[1],
            edge_type: EdgeType::BelongsTo,
            weight: CATEGORY_EDGE_WEIGHT,
        },
    ] + (if k > 1 {
        seq![
            Edge {
                to: s.product_vertices[(k - 1) as u64],
                edge_type: EdgeType::Similar,
                weight: SYNTHETIC_SIMILARITY,
            },
        ]
    } else {
        Seq::empty()
    }) + (if k < n {
        seq![
            Edge {
                to: s.product_vertices[(k + 1) as u64],
                edge_type: EdgeType::Similar,
                weight: SYNTHETIC_SIMILARITY,
            },
        ]
    } else {
        Seq::empty()
    }) + (if k == 1 {
        seq![Edge { to: s.customer_vertices[1], edge_type: EdgeType::Purchased, weight: 1000 }]
    } else {
        Seq::empty()
    })
}

/// Builds a synthetic catalogue for measuring recommendations at scale: one category,
/// `max(product_count, 1)` products chained by `Similar` edges (each to the next), and
/// one customer, `Cliente Benchmark`, who bought the first product.
pub fn build_synthetic_store(product_count: usize) -> (r: Store)
    requires
        product_count <= synthetic_capacity(),
    ensures
        ({
            let n: nat = if product_count == 0 {
                1
            } else {
                product_count as nat
            };
            &&& r.wf()
            &&& synthetic_catalogue(r@, n as u64)
            &&& r@.customers == map![1u64 => CustomerView {
                id: CustomerId(1),
                name: "Cliente Benchmark"@,
                purchased: seq![ProductId(1)],
            }]
            &&& r@.customer_vertices == map![1u64 => VertexId((n + 2) as u64)]
            &&& r@.graph == synthetic_graph(n)
            &&& r@.graph.vertices.len() == n + 2
            &&& r@.graph.total_degree() == 4 * n
            &&& forall|k: u64| #[trigger]
                r@.products.contains_key(k) ==> r@.graph.edges_of(r@.product_vertices[k].0)
                    == product_neighbourhood(r@, n, k)
            &&& r@.graph.edges_of(r@.category_vertices[1].0) == category_ties(n)
            &&& r@.graph.edges_of(r@.customer_vertices[1].0) == seq![
                Edge { to: r@.product_vertices[1], edge_type: EdgeType::Purchased, weight: 1000 },
            ]
        }),
{
    let mut store = Store::new();
    proof {
        lemma_linked_empty();
        assert(store@.graph =~= empty_graph());
        lemma_linked_with_vertex(Seq::empty(), Seq::empty(), VertexKind::Category(CategoryId(1)));
        assert(Seq::<VertexKind>::empty().push(VertexKind::Category(CategoryId(1)))
            =~= synthetic_kinds(0));
    }
    let category_name = "Eletrônicos".to_owned();
    let cat = match store.register_category(category_name) {
        Ok(c) => c,
        Err(_) => {
            proof {
                assert(false);
            }
            return store;
        },
    };
    let seed_name = "Produto-0".to_owned();
    proof {
        reveal_strlit("Produto-0");
        assert(!is_white_space(seed_name@[0]));
    }
    let ghost before_seed = store@;
    let mut prev = match store.register_product(seed_name, cat.id, SEED_PRICE, "seed".to_owned()) {
        Ok(p) => p,
        Err(_) => {
            proof {
                assert(false);
            }
            return store;
        },
    };
    proof {
        let k0 = synthetic_kinds(0);
        lemma_linked_with_vertex(k0, Seq::empty(), VertexKind::Product(ProductId(1)));
        assert(k0.push(VertexKind::Product(ProductId(1))) =~= synthetic_kinds(1));
        lemma_linked_with_link(synthetic_kinds(1), Seq::empty(), category_link(1));
        assert(Seq::<Link>::empty().push(category_link(1)) =~= synthetic_chain(1));
        assert(store@.category_vertices =~= map![1u64 => VertexId(1)]);
    }
    assert(store@.products.dom() =~= Set::new(|k: u64| 1 <= k <= 1));
    assert(store@.product_vertices[1] == VertexId(2));
    let mut i: usize = 1;
    while i < product_count
        invariant
            product_count <= synthetic_capacity(),
            1 <= i,
            i <= if product_count == 0 {
                1
            } else {
                product_count
            },
            store.wf(),
            cat.id == CategoryId(1),
            synthetic_catalogue(store@, i as u64),
            store@.graph == linked_graph(synthetic_kinds(i as nat), synthetic_chain(i as nat)),
            prev.id == ProductId(i as u64),
            store@.next_product_id == i + 1,
            store@.graph.next_id == i + 2,
            store@.customers == Map::<u64, CustomerView>::empty(),
            store@.customer_vertices == Map::<u64, VertexId>::empty(),
            store@.next_customer_id == 1,
        decreases product_count - i,
    {
        let ghost before = store@;
        let name = product_label(i);
        proof {
            assert(name@[0] == 'P');
            assert(!is_white_space(name@[0]));
        }
        let p = match store.register_product(
            name,
            cat.id,
            synthetic_price_bits(i),
            "synthetic".to_owned(),
        ) {
            Ok(p) => p,
            Err(_) => {
                proof {
                    assert(false);
                }
                return store;
            },
        };
        assert(store@.products.contains_key(prev.id.0));
        match store.link_similar_products(prev.id, p.id, SYNTHETIC_SIMILARITY) {
            Ok(()) => {},
            Err(_) => {
                proof {
                    assert(false);
                }
                return store;
            },
        }
        proof {
            let n = (i + 1) as nat;
            let ki = synthetic_kinds(i as nat);
            let ci = synthetic_chain(i as nat);
            lemma_synthetic_chain(i as nat);
            lemma_linked_with_vertex(ki, ci, VertexKind::Product(ProductId(n as u64)));
            assert(ki.push(VertexKind::Product(ProductId(n as u64))) =~= synthetic_kinds(n));
            lemma_linked_with_link(synthetic_kinds(n), ci, category_link(n));
            lemma_linked_with_link(synthetic_kinds(n), ci.push(category_link(n)), chain_link(i as nat));
            assert(store@.products.dom() =~= Set::new(|k: u64| 1 <= k <= n));
        }
        prev = p;
        i = i + 1;
    }
    let n: u64 = i as u64;
    let customer_name = "Cliente Benchmark".to_owned();
    proof {
        reveal_strlit("Cliente Benchmark");
        assert(!is_white_space(customer_name@[0]));
    }
    let customer = match store.register_customer(customer_name) {
        Ok(c) => c,
        Err(_) => {
            proof {
                assert(false);
            }
            return store;
        },
    };
    let first = {
        let products = store.list_products();
        proof {
            assert(store@.products.contains_key(1));
            let j = choose|j: int| 0 <= j < products@.len() && products@[j].id.0 == 1;
            if j > 0 {
                assert(products@[0].id.0 < products@[j].id.0);
                assert(store@.products.contains_key(products@[0].id.0));
            }
        }
        if products.len() > 0 {
            Some(products[0].id)
        } else {
            None
        }
    };
    assert(first == Some(ProductId(1)));
    match first {
        Some(first_id) => {
            match store.link_purchase(customer.id, first_id, 1000) {
                Ok(()) => {},
                Err(_) => {
                    proof {
                        assert(false);
                    }
                },
            }
        },
        None => {},
    }
    proof {
        let kn = synthetic_kinds(n as nat);
        let cn = synthetic_chain(n as nat);
        let kc = kn.push(VertexKind::Customer(CustomerId(1)));
        let purchase = Link {
            from: (n + 2) as u64,
            to: 2,
            edge_type: EdgeType::Purchased,
            weight: 1000,
        };
        lemma_synthetic_chain(n as nat);
        lemma_linked_with_vertex(kn, cn, VertexKind::Customer(CustomerId(1)));
        lemma_linked_with_link(kc, cn, purchase);
        lemma_linked_counts(kc, cn.push(purchase));
        assert(store@.customers =~= map![1u64 => CustomerView {
            id: CustomerId(1),
            name: "Cliente Benchmark"@,
            purchased: seq![ProductId(1)],
        }]);
        assert(store@.customer_vertices =~= map![1u64 => VertexId((n + 2) as u64)]);
        assert(synthetic_catalogue(store@, n));
        synthetic_products_are_chained(n as nat);
        assert forall|k: u64| #[trigger] store@.products.contains_key(k) implies store@.graph.edges_of(
            store@.product_vertices[k].0,
        ) == product_neighbourhood(store@, n as nat, k) by {
            let g = store@.graph.edges_of((k + 1) as u64);
            assert(store@.product_vertices[k] == VertexId((k + 1) as u64));
            if k > 1 {
                assert(store@.products.contains_key((k - 1) as u64));
            }
            if k < n {
                assert(store@.products.contains_key((k + 1) as u64));
            }
            assert(synthetic_graph(n as nat).edges_of(((k as nat) + 1) as u64) == g);
            assert(g =~= product_neighbourhood(store@, n as nat, k));
        }
    }
    store
}

} // verus!
