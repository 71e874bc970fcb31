use vstd::prelude::*;

use crate::graph::linked::{
    edges_of_links, empty_graph, lemma_link_edges_flat, lemma_linked_counts, lemma_linked_empty, lemma_linked_with_link, link_edges_at,
    lemma_linked_with_vertex, linked_graph, links_within, Link,
};
use crate::graph::{Edge, EdgeType, VertexKind};
use crate::models::{CategoryId, CustomerId, CustomerView, ProductId, VertexId};
use crate::models::price::is_valid_price;
use crate::repository::{Store, StoreView, CATEGORY_EDGE_WEIGHT};
use crate::text::{is_blank_text, is_white_space};

verus! {

/// The ids that the next registrations get, and the next vertex id.
pub open spec fn counters(s: StoreView) -> (u64, u64, u64, u64) {
    (s.next_category_id, s.next_product_id, s.next_customer_id, s.graph.next_id)
}

/// The store's graph is the one described by `kinds` and `links`.
pub open spec fn described_by(s: StoreView, kinds: Seq<VertexKind>, links: Seq<Link>) -> bool {
    &&& s.graph == linked_graph(kinds, links)
    &&& links_within(links, kinds.len())
    &&& kinds.len() < u64::MAX
}

fn add_category(
    store: &mut Store,
    name: &str,
    Ghost(kinds): Ghost<Seq<VertexKind>>,
    Ghost(links): Ghost<Seq<Link>>,
) -> (id: CategoryId)
    requires
        old(store).wf(),
        old(store)@.can_add_category(),
        described_by(old(store)@, kinds, links),
    ensures
        final(store).wf(),
        id == CategoryId(old(store)@.next_category_id),
        final(store)@.categories == old(store)@.categories.insert(
            id.0,
            final(store)@.categories[id.0],
        ),
        final(store)@.categories[id.0].name@ == name@,
        final(store)@.products == old(store)@.products,
        final(store)@.customers == old(store)@.customers,
        described_by(final(store)@, kinds.push(VertexKind::Category(id)), links),
        final(store)@.category_vertices == old(store)@.category_vertices.insert(
            id.0,
            VertexId(old(store)@.graph.next_id),
        ),
        final(store)@.product_vertices == old(store)@.product_vertices,
        final(store)@.customer_vertices == old(store)@.customer_vertices,
        counters(final(store)@) == (
            (old(store)@.next_category_id + 1) as u64,
            old(store)@.next_product_id,
            old(store)@.next_customer_id,
            (old(store)@.graph.next_id + 1) as u64,
        ),
{
    let id = CategoryId(store.next_category_id_value());
    match store.register_category(name.to_owned()) {
        Ok(_) => {},
        Err(_) => {
            proof {
                assert(false);
            }
        },
    }
    proof {
        lemma_linked_with_vertex(kinds, links, VertexKind::Category(id));
    }
    id
}

fn add_product(
    store: &mut Store,
    name: &str,
    category: CategoryId,
    price_bits: u64,
    description: &str,
    Ghost(kinds): Ghost<Seq<VertexKind>>,
    Ghost(links): Ghost<Seq<Link>>,
) -> (id: ProductId)
    requires
        old(store).wf(),
        old(store)@.can_add_product(),
        old(store)@.categories.contains_key(category.0),
        name@.len() > 0,
        !is_white_space(name@[0]),
        is_valid_price(price_bits),
        described_by(old(store)@, kinds, links),
    ensures
        final(store).wf(),
        id == ProductId(old(store)@.next_product_id),
        final(store)@.products == old(store)@.products.insert(id.0, final(store)@.products[id.0]),
        final(store)@.products[id.0].name@ == name@,
        final(store)@.products[id.0].category_id == category,
        final(store)@.products[id.0].price_bits == price_bits,
        final(store)@.products[id.0].description@ == description@,
        final(store)@.categories == old(store)@.categories,
        final(store)@.customers == old(store)@.customers,
        described_by(
            final(store)@,
            kinds.push(VertexKind::Product(id)),
            links.push(
                Link {
                    from: old(store)@.graph.next_id,
                    to: old(store)@.category_vertices[category.0].0,
                    edge_type: EdgeType::BelongsTo,
                    weight: CATEGORY_EDGE_WEIGHT,
                },
            ),
        ),
        final(store)@.product_vertices == old(store)@.product_vertices.insert(
            id.0,
            VertexId(old(store)@.graph.next_id),
        ),
        final(store)@.category_vertices == old(store)@.category_vertices,
        final(store)@.customer_vertices == old(store)@.customer_vertices,
        counters(final(store)@) == (
            old(store)@.next_category_id,
            (old(store)@.next_product_id + 1) as u64,
            old(store)@.next_customer_id,
            (old(store)@.graph.next_id + 1) as u64,
        ),
{
    let ghost before = store@;
    let id = ProductId(store.next_product_id_value());
    let text = name.to_owned();
    assert(!is_blank_text(text@));
    match store.register_product(text, category, price_bits, description.to_owned()) {
        Ok(_) => {},
        Err(_) => {
            proof {
                assert(false);
            }
        },
    }
    proof {
        let catv = before.category_vertices[category.0];
        assert(before.graph.has_vertex(catv.0));
        lemma_linked_with_vertex(kinds, links, VertexKind::Product(id));
        lemma_linked_with_link(
            kinds.push(VertexKind::Product(id)),
            links,
            Link {
                from: before.graph.next_id,
                to: catv.0,
                edge_type: EdgeType::BelongsTo,
                weight: CATEGORY_EDGE_WEIGHT,
            },
        );
    }
    id
}

fn add_customer(
    store: &mut Store,
    name: &str,
    Ghost(kinds): Ghost<Seq<VertexKind>>,
    Ghost(links): Ghost<Seq<Link>>,
) -> (id: CustomerId)
    requires
        old(store).wf(),
        old(store)@.can_add_customer(),
        name@.len() > 0,
        !is_white_space(name@[0]),
        described_by(old(store)@, kinds, links),
    ensures
        final(store).wf(),
        id == CustomerId(old(store)@.next_customer_id),
        final(store)@.customers == old(store)@.customers.insert(
            id.0,
            CustomerView { id, name: name@, purchased: Seq::empty() },
        ),
        final(store)@.categories == old(store)@.categories,
        final(store)@.products == old(store)@.products,
        described_by(final(store)@, kinds.push(VertexKind::Customer(id)), links),
        final(store)@.product_vertices == old(store)@.product_vertices,
        final(store)@.category_vertices == old(store)@.category_vertices,
        final(store)@.customer_vertices == old(store)@.customer_vertices.insert(
            id.0,
            VertexId(old(store)@.graph.next_id),
        ),
        counters(final(store)@) == (
            old(store)@.next_category_id,
            old(store)@.next_product_id,
            (old(store)@.next_customer_id + 1) as u64,
            (old(store)@.graph.next_id + 1) as u64,
        ),
{
    let id = CustomerId(store.next_customer_id_value());
    let text = name.to_owned();
    assert(!is_blank_text(text@));
    match store.register_customer(text) {
        Ok(_) => {},
        Err(_) => {
            proof {
                assert(false);
            }
        },
    }
    proof {
        lemma_linked_with_vertex(kinds, links, VertexKind::Customer(id));
    }
    id
}

fn link_similar(
    store: &mut Store,
    a: ProductId,
    b: ProductId,
    weight: u32,
    Ghost(kinds): Ghost<Seq<VertexKind>>,
    Ghost(links): Ghost<Seq<Link>>,
)
    requires
        old(store).wf(),
        old(store)@.products.contains_key(a.0),
        old(store)@.products.contains_key(b.0),
        described_by(old(store)@, kinds, links),
    ensures
        final(store).wf(),
        final(store)@.products == old(store)@.products,
        final(store)@.categories == old(store)@.categories,
        final(store)@.customers == old(store)@.customers,
        described_by(
            final(store)@,
            kinds,
            links.push(
                Link {
                    from: old(store)@.product_vertices[a.0].0,
                    to: old(store)@.product_vertices[b.0].0,
                    edge_type: EdgeType::Similar,
                    weight,
                },
            ),
        ),
        final(store)@.product_vertices == old(store)@.product_vertices,
        final(store)@.category_vertices == old(store)@.category_vertices,
        final(store)@.customer_vertices == old(store)@.customer_vertices,
        counters(final(store)@) == counters(old(store)@),
{
    let ghost before = store@;
    match store.link_similar_products(a, b, weight) {
        Ok(()) => {},
        Err(_) => {
            proof {
                assert(false);
            }
        },
    }
    proof {
        let av = before.product_vertices[a.0];
        let bv = before.product_vertices[b.0];
        assert(before.graph.has_vertex(av.0) && before.graph.has_vertex(bv.0));
        lemma_linked_with_link(
            kinds,
            links,
            Link { from: av.0, to: bv.0, edge_type: EdgeType::Similar, weight },
        );
    }
}

fn link_customer(
    store: &mut Store,
    c: CustomerId,
    p: ProductId,
    t: EdgeType,
    weight: u32,
    Ghost(kinds): Ghost<Seq<VertexKind>>,
    Ghost(links): Ghost<Seq<Link>>,
)
    requires
        old(store).wf(),
        old(store)@.customers.contains_key(c.0),
        old(store)@.products.contains_key(p.0),
        t == EdgeType::Purchased || t == EdgeType::Interested || t == EdgeType::Rated,
        described_by(old(store)@, kinds, links),
    ensures
        final(store).wf(),
        final(store)@.products == old(store)@.products,
        final(store)@.categories == old(store)@.categories,
        t == EdgeType::Purchased ==> final(store)@.customers == old(store)@.customers.insert(
            c.0,
            CustomerView {
                purchased: old(store)@.purchases_with(c.0, p),
                ..old(store)@.customers[c.0]
            },
        ),
        t != EdgeType::Purchased ==> final(store)@.customers == old(store)@.customers,
        described_by(
            final(store)@,
            kinds,
            links.push(
                Link {
                    from: old(store)@.customer_vertices[c.0].0,
                    to: old(store)@.product_vertices[p.0].0,
                    edge_type: t,
                    weight,
                },
            ),
        ),
        final(store)@.product_vertices == old(store)@.product_vertices,
        final(store)@.category_vertices == old(store)@.category_vertices,
        final(store)@.customer_vertices == old(store)@.customer_vertices,
        counters(final(store)@) == counters(old(store)@),
{
    let ghost before = store@;
    let r = match t {
        EdgeType::Purchased => store.link_purchase(c, p, weight),
        EdgeType::Interested => store.link_interest(c, p, weight),
        _ => store.link_rating(c, p, weight),
    };
    match r {
        Ok(()) => {},
        Err(_) => {
            proof {
                assert(false);
            }
        },
    }
    proof {
        let cv = before.customer_vertices[c.0];
        let pv = before.product_vertices[p.0];
        assert(before.graph.has_vertex(cv.0) && before.graph.has_vertex(pv.0));
        lemma_linked_with_link(kinds, links, Link { from: cv.0, to: pv.0, edge_type: t, weight });
    }
}

/// The demonstration catalogue: the categories, products and customers below under
/// ids 1, 2, 3..., the customers' purchases, and the vertex of each entity (the
/// graph itself is `demo_kinds` and `demo_links`). Prices are the binary64 encodings
/// of 3499.90, 4299.00, 189.90, 459.00, 2199.00, 2999.00, 79.90, 189.00, 129.00,
/// 99.90, 899.00 and 79.00.
pub open spec fn demo_catalogue(s: StoreView) -> bool {
    &&& s.categories.dom() == Set::new(|k: u64| 1 <= k <= 7)
    &&& s.categories[1].name@ == "Eletrônicos"@
    &&& s.categories[2].name@ == "Informática"@
    &&& s.categories[3].name@ == "Celulares"@
    &&& s.categories[4].name@ == "Livros"@
    &&& s.categories[5].name@ == "Casa"@
    &&& s.categories[6].name@ == "Móveis"@
    &&& s.categories[7].name@ == "Vestuário"@
    &&& s.products.dom() == Set::new(|k: u64| 1 <= k <= 12)
    &&& s.products[1].name@ == "Notebook A"@ && s.products[1].category_id == CategoryId(2)
        && s.products[1].price_bits == 0x40ab_57cc_cccc_cccd && s.products[1].description@ == "Intel i5, 16GB RAM, SSD 512GB"@
    &&& s.products[2].name@ == "Notebook B"@ && s.products[2].category_id == CategoryId(2)
        && s.products[2].price_bits == 0x40b0_cb00_0000_0000 && s.products[2].description@ == "Intel i7, 16GB RAM, SSD 1TB"@
    &&& s.products[3].name@ == "Mouse X"@ && s.products[3].category_id == CategoryId(2)
        && s.products[3].price_bits == 0x4067_bccc_cccc_cccd && s.products[3].description@ == "Ergonômico sem fio"@
    &&& s.products[4].name@ == "Teclado Mecânico Pro"@ && s.products[4].category_id == CategoryId(2)
        && s.products[4].price_bits == 0x407c_b000_0000_0000 && s.products[4].description@ == "Switch brown, RGB"@
    &&& s.products[5].name@ == "Monitor 27 4K"@ && s.products[5].category_id == CategoryId(1)
        && s.products[5].price_bits == 0x40a1_2e00_0000_0000 && s.products[5].description@ == "IPS, 144Hz"@
    &&& s.products[6].name@ == "Smartphone Z"@ && s.products[6].category_id == CategoryId(3)
        && s.products[6].price_bits == 0x40a7_6e00_0000_0000 && s.products[6].description@ == "128GB, câmera tripla"@
    &&& s.products[7].name@ == "Capa Smartphone Z"@ && s.products[7].category_id == CategoryId(3)
        && s.products[7].price_bits == 0x4053_f999_9999_999a && s.products[7].description@ == "Antichoque"@
    &&& s.products[8].name@ == "Rust em Ação"@ && s.products[8].category_id == CategoryId(4)
        && s.products[8].price_bits == 0x4067_a000_0000_0000 && s.products[8].description@ == "Programação de sistemas"@
    &&& s.products[9].name@ == "Algoritmos Ilustrados"@ && s.products[9].category_id == CategoryId(4)
        && s.products[9].price_bits == 0x4060_2000_0000_0000 && s.products[9].description@ == "Estruturas de dados"@
    &&& s.products[10].name@ == "Lâmpada LED Smart"@ && s.products[10].category_id == CategoryId(5)
        && s.products[10].price_bits == 0x4058_f999_9999_999a && s.products[10].description@ == "Wi-Fi, dimmer"@
    &&& s.products[11].name@ == "Mesa Escritório"@ && s.products[11].category_id == CategoryId(6)
        && s.products[11].price_bits == 0x408c_1800_0000_0000 && s.products[11].description@ == "120cm, ajustável"@
    &&& s.products[12].name@ == "Camiseta Dev"@ && s.products[12].category_id == CategoryId(7)
        && s.products[12].price_bits == 0x4053_c000_0000_0000 && s.products[12].description@ == "Algodão, estampa Rust"@
    &&& s.customers.dom() == Set::new(|k: u64| 1 <= k <= 3)
    &&& s.customers[1].name == "Ana Silva"@
    &&& s.customers[2].name == "Bruno Costa"@
    &&& s.customers[3].name == "Carla Mendes"@
    &&& s.customers[1].purchased == seq![ProductId(1)]
    &&& s.customers[2].purchased == seq![ProductId(6)]
    &&& s.customers[3].purchased == seq![ProductId(8)]
    &&& s.category_vertices == Map::new(|k: u64| 1 <= k <= 7, |k: u64| VertexId(k))
    &&& s.product_vertices == Map::new(|k: u64| 1 <= k <= 12, |k: u64| VertexId((k + 7) as u64))
    &&& s.customer_vertices == Map::new(|k: u64| 1 <= k <= 3, |k: u64| VertexId((k + 19) as u64))
}

/// The kinds of the demonstration graph's vertices, in order of creation: categories
/// 1 to 7 (vertices 1 to 7), products 1 to 12 (vertices 8 to 19), customers 1 to 3
/// (vertices 20 to 22).
pub open spec fn demo_kinds() -> Seq<VertexKind> {
    Seq::new(
        22,
        |j: int|
            if j < 7 {
                VertexKind::Category(CategoryId((j + 1) as u64))
            } else if j < 19 {
                VertexKind::Product(ProductId((j - 6) as u64))
            } else {
                VertexKind::Customer(CustomerId((j - 18) as u64))
            },
    )
}

/// An undirected link of the demonstration graph.
pub open spec fn demo_link(from: u64, to: u64, edge_type: EdgeType, weight: u32) -> Link {
    Link { from, to, edge_type, weight }
}

/// The links of the demonstration graph, in order of insertion: each product's tie
/// to its category, the similarities, then the customers' purchases, interests and
/// rating.
pub open spec fn demo_links() -> Seq<Link> {
    seq![
        demo_link(8, 2, EdgeType::BelongsTo, CATEGORY_EDGE_WEIGHT),
        demo_link(9, 2, EdgeType::BelongsTo, CATEGORY_EDGE_WEIGHT),
        demo_link(10, 2, EdgeType::BelongsTo, CATEGORY_EDGE_WEIGHT),
        demo_link(11, 2, EdgeType::BelongsTo, CATEGORY_EDGE_WEIGHT),
        demo_link(12, 1, EdgeType::BelongsTo, CATEGORY_EDGE_WEIGHT),
        demo_link(13, 3, EdgeType::BelongsTo, CATEGORY_EDGE_WEIGHT),
        demo_link(14, 3, EdgeType::BelongsTo, CATEGORY_EDGE_WEIGHT),
        demo_link(15, 4, EdgeType::BelongsTo, CATEGORY_EDGE_WEIGHT),
        demo_link(16, 4, EdgeType::BelongsTo, CATEGORY_EDGE_WEIGHT),
        demo_link(17, 5, EdgeType::BelongsTo, CATEGORY_EDGE_WEIGHT),
        demo_link(18, 6, EdgeType::BelongsTo, CATEGORY_EDGE_WEIGHT),
        demo_link(19, 7, EdgeType::BelongsTo, CATEGORY_EDGE_WEIGHT),
        demo_link(8, 9, EdgeType::Similar, 920),
        demo_link(9, 10, EdgeType::Similar, 750),
        demo_link(8, 11, EdgeType::Similar, 800),
        demo_link(8, 12, EdgeType::Similar, 700),
        demo_link(13, 14, EdgeType::Similar, 950),
        demo_link(15, 16, EdgeType::Similar, 880),
        demo_link(18, 12, EdgeType::Similar, 600),
        demo_link(20, 8, EdgeType::Purchased, 1000),
        demo_link(20, 12, EdgeType::Interested, 700),
        demo_link(20, 8, EdgeType::Rated, 950),
        demo_link(21, 13, EdgeType::Purchased, 1000),
        demo_link(21, 14, EdgeType::Interested, 800),
        demo_link(22, 15, EdgeType::Purchased, 1000),
        demo_link(22, 19, EdgeType::Interested, 500),
    ]
}

/// A small, coherent catalogue for demonstrations and the command line.
pub fn load_demo_store() -> (r: Store)
    ensures
        r.wf(),
        demo_catalogue(r@),
        r@.graph == linked_graph(demo_kinds(), demo_links()),
        r@.graph.vertices.len() == 22,
        r@.graph.total_degree() == 52,
        demo_relations(r@),
{
    let mut store = Store::new();
    let ghost mut k: Seq<VertexKind> = Seq::empty();
    let ghost mut l: Seq<Link> = Seq::empty();
    proof {
        lemma_linked_empty();
        assert(store@.graph =~= empty_graph());
    }
    let eletronicos = add_category(&mut store, "Eletrônicos", Ghost(k), Ghost(l));
    proof { k = k.push(VertexKind::Category(eletronicos)); }
    let informatica = add_category(&mut store, "Informática", Ghost(k), Ghost(l));
    proof { k = k.push(VertexKind::Category(informatica)); }
    let celulares = add_category(&mut store, "Celulares", Ghost(k), Ghost(l));
    proof { k = k.push(VertexKind::Category(celulares)); }
    let livros = add_category(&mut store, "Livros", Ghost(k), Ghost(l));
    proof { k = k.push(VertexKind::Category(livros)); }
    let casa = add_category(&mut store, "Casa", Ghost(k), Ghost(l));
    proof { k = k.push(VertexKind::Category(casa)); }
    let moveis = add_category(&mut store, "Móveis", Ghost(k), Ghost(l));
    proof { k = k.push(VertexKind::Category(moveis)); }
    let vestuario = add_category(&mut store, "Vestuário", Ghost(k), Ghost(l));
    proof { k = k.push(VertexKind::Category(vestuario)); }
    proof {
        reveal_strlit("Notebook A");
    }
    let notebook_a = add_product(&mut store, "Notebook A", informatica, 0x40ab_57cc_cccc_cccd, "Intel i5, 16GB RAM, SSD 512GB", Ghost(k), Ghost(l));
    proof { k = k.push(VertexKind::Product(notebook_a)); l = l.push(demo_link(8, 2, EdgeType::BelongsTo, CATEGORY_EDGE_WEIGHT)); }
    proof {
        reveal_strlit("Notebook B");
    }
    let notebook_b = add_product(&mut store, "Notebook B", informatica, 0x40b0_cb00_0000_0000, "Intel i7, 16GB RAM, SSD 1TB", Ghost(k), Ghost(l));
    proof { k = k.push(VertexKind::Product(notebook_b)); l = l.push(demo_link(9, 2, EdgeType::BelongsTo, CATEGORY_EDGE_WEIGHT)); }
    proof {
        reveal_strlit("Mouse X");
    }
    let mouse_x = add_product(&mut store, "Mouse X", informatica, 0x4067_bccc_cccc_cccd, "Ergonômico sem fio", Ghost(k), Ghost(l));
    proof { k = k.push(VertexKind::Product(mouse_x)); l = l.push(demo_link(10, 2, EdgeType::BelongsTo, CATEGORY_EDGE_WEIGHT)); }
    proof {
        reveal_strlit("Teclado Mecânico Pro");
    }
    let teclado = add_product(&mut store, "Teclado Mecânico Pro", informatica, 0x407c_b000_0000_0000, "Switch brown, RGB", Ghost(k), Ghost(l));
    proof { k = k.push(VertexKind::Product(teclado)); l = l.push(demo_link(11, 2, EdgeType::BelongsTo, CATEGORY_EDGE_WEIGHT)); }
    proof {
        reveal_strlit("Monitor 27 4K");
    }
    let monitor = add_product(&mut store, "Monitor 27 4K", eletronicos, 0x40a1_2e00_0000_0000, "IPS, 144Hz", Ghost(k), Ghost(l));
    proof { k = k.push(VertexKind::Product(monitor)); l = l.push(demo_link(12, 1, EdgeType::BelongsTo, CATEGORY_EDGE_WEIGHT)); }
    proof {
        reveal_strlit("Smartphone Z");
    }
    let smartphone = add_product(&mut store, "Smartphone Z", celulares, 0x40a7_6e00_0000_0000, "128GB, câmera tripla", Ghost(k), Ghost(l));
    proof { k = k.push(VertexKind::Product(smartphone)); l = l.push(demo_link(13, 3, EdgeType::BelongsTo, CATEGORY_EDGE_WEIGHT)); }
    proof {
        reveal_strlit("Capa Smartphone Z");
    }
    let capa = add_product(&mut store, "Capa Smartphone Z", celulares, 0x4053_f999_9999_999a, "Antichoque", Ghost(k), Ghost(l));
    proof { k = k.push(VertexKind::Product(capa)); l = l.push(demo_link(14, 3, EdgeType::BelongsTo, CATEGORY_EDGE_WEIGHT)); }
    proof {
        reveal_strlit("Rust em Ação");
    }
    let livro_rust = add_product(&mut store, "Rust em Ação", livros, 0x4067_a000_0000_0000, "Programação de sistemas", Ghost(k), Ghost(l));
    proof { k = k.push(VertexKind::Product(livro_rust)); l = l.push(demo_link(15, 4, EdgeType::BelongsTo, CATEGORY_EDGE_WEIGHT)); }
    proof {
        reveal_strlit("Algoritmos Ilustrados");
    }
    let livro_algos = add_product(&mut store, "Algoritmos Ilustrados", livros, 0x4060_2000_0000_0000, "Estruturas de dados", Ghost(k), Ghost(l));
    proof { k = k.push(VertexKind::Product(livro_algos)); l = l.push(demo_link(16, 4, EdgeType::BelongsTo, CATEGORY_EDGE_WEIGHT)); }
    proof {
        reveal_strlit("Lâmpada LED Smart");
    }
    let lampada = add_product(&mut store, "Lâmpada LED Smart", casa, 0x4058_f999_9999_999a, "Wi-Fi, dimmer", Ghost(k), Ghost(l));
    proof { k = k.push(VertexKind::Product(lampada)); l = l.push(demo_link(17, 5, EdgeType::BelongsTo, CATEGORY_EDGE_WEIGHT)); }
    proof {
        reveal_strlit("Mesa Escritório");
    }
    let mesa = add_product(&mut store, "Mesa Escritório", moveis, 0x408c_1800_0000_0000, "120cm, ajustável", Ghost(k), Ghost(l));
    proof { k = k.push(VertexKind::Product(mesa)); l = l.push(demo_link(18, 6, EdgeType::BelongsTo, CATEGORY_EDGE_WEIGHT)); }
    proof {
        reveal_strlit("Camiseta Dev");
    }
    let camiseta = add_product(&mut store, "Camiseta Dev", vestuario, 0x4053_c000_0000_0000, "Algodão, estampa Rust", Ghost(k), Ghost(l));
    proof { k = k.push(VertexKind::Product(camiseta)); l = l.push(demo_link(19, 7, EdgeType::BelongsTo, CATEGORY_EDGE_WEIGHT)); }
    link_similar(&mut store, notebook_a, notebook_b, 920, Ghost(k), Ghost(l));
    proof { l = l.push(demo_link(8, 9, EdgeType::Similar, 920)); }
    link_similar(&mut store, notebook_b, mouse_x, 750, Ghost(k), Ghost(l));
    proof { l = l.push(demo_link(9, 10, EdgeType::Similar, 750)); }
    link_similar(&mut store, notebook_a, teclado, 800, Ghost(k), Ghost(l));
    proof { l = l.push(demo_link(8, 11, EdgeType::Similar, 800)); }
    link_similar(&mut store, notebook_a, monitor, 700, Ghost(k), Ghost(l));
    proof { l = l.push(demo_link(8, 12, EdgeType::Similar, 700)); }
    link_similar(&mut store, smartphone, capa, 950, Ghost(k), Ghost(l));
    proof { l = l.push(demo_link(13, 14, EdgeType::Similar, 950)); }
    link_similar(&mut store, livro_rust, livro_algos, 880, Ghost(k), Ghost(l));
    proof { l = l.push(demo_link(15, 16, EdgeType::Similar, 880)); }
    link_similar(&mut store, mesa, monitor, 600, Ghost(k), Ghost(l));
    proof { l = l.push(demo_link(18, 12, EdgeType::Similar, 600)); }
    proof {
        reveal_strlit("Ana Silva");
    }
    let ana = add_customer(&mut store, "Ana Silva", Ghost(k), Ghost(l));
    proof { k = k.push(VertexKind::Customer(ana)); }
    proof {
        reveal_strlit("Bruno Costa");
    }
    let bruno = add_customer(&mut store, "Bruno Costa", Ghost(k), Ghost(l));
    proof { k = k.push(VertexKind::Customer(bruno)); }
    proof {
        reveal_strlit("Carla Mendes");
    }
    let carla = add_customer(&mut store, "Carla Mendes", Ghost(k), Ghost(l));
    proof { k = k.push(VertexKind::Customer(carla)); }
    link_customer(&mut store, ana, notebook_a, EdgeType::Purchased, 1000, Ghost(k), Ghost(l));
    proof { l = l.push(demo_link(20, 8, EdgeType::Purchased, 1000)); }
    link_customer(&mut store, ana, monitor, EdgeType::Interested, 700, Ghost(k), Ghost(l));
    proof { l = l.push(demo_link(20, 12, EdgeType::Interested, 700)); }
    link_customer(&mut store, ana, notebook_a, EdgeType::Rated, 950, Ghost(k), Ghost(l));
    proof { l = l.push(demo_link(20, 8, EdgeType::Rated, 950)); }
    link_customer(&mut store, bruno, smartphone, EdgeType::Purchased, 1000, Ghost(k), Ghost(l));
    proof { l = l.push(demo_link(21, 13, EdgeType::Purchased, 1000)); }
    link_customer(&mut store, bruno, capa, EdgeType::Interested, 800, Ghost(k), Ghost(l));
    proof { l = l.push(demo_link(21, 14, EdgeType::Interested, 800)); }
    link_customer(&mut store, carla, livro_rust, EdgeType::Purchased, 1000, Ghost(k), Ghost(l));
    proof { l = l.push(demo_link(22, 15, EdgeType::Purchased, 1000)); }
    link_customer(&mut store, carla, camiseta, EdgeType::Interested, 500, Ghost(k), Ghost(l));
    proof { l = l.push(demo_link(22, 19, EdgeType::Interested, 500)); }
    assert(store@.categories.dom() =~= Set::new(|k: u64| 1 <= k <= 7));
    assert(store@.products.dom() =~= Set::new(|k: u64| 1 <= k <= 12));
    assert(store@.customers.dom() =~= Set::new(|k: u64| 1 <= k <= 3));
    assert(store@.customers[1].purchased =~= seq![ProductId(1)]);
    assert(store@.customers[2].purchased =~= seq![ProductId(6)]);
    assert(store@.customers[3].purchased =~= seq![ProductId(8)]);
    assert(store@.category_vertices =~= Map::new(|k: u64| 1 <= k <= 7, |k: u64| VertexId(k)));
    assert(store@.product_vertices =~= Map::new(
        |k: u64| 1 <= k <= 12,
        |k: u64| VertexId((k + 7) as u64),
    ));
    assert(store@.customer_vertices =~= Map::new(
        |k: u64| 1 <= k <= 3,
        |k: u64| VertexId((k + 19) as u64),
    ));
    proof {
        assert(k =~= demo_kinds());
        assert(l =~= demo_links());
        lemma_linked_counts(k, l);
        demo_links_make_the_demo_relations(store@);
    }
    store
}

} // verus!
verus! {

/// The edge towards the vertex of product `p`.
pub open spec fn to_product(s: StoreView, p: u64, edge_type: EdgeType, weight: u32) -> Edge {
    Edge { to: s.product_vertices[p], edge_type, weight }
}

/// The edge towards the vertex of customer `c`.
pub open spec fn to_customer(s: StoreView, c: u64, edge_type: EdgeType, weight: u32) -> Edge {
    Edge { to: s.customer_vertices[c], edge_type, weight }
}

/// The tie towards the vertex of category `k`.
pub open spec fn to_category(s: StoreView, k: u64) -> Edge {
    Edge { to: s.category_vertices[k], edge_type: EdgeType::BelongsTo, weight: CATEGORY_EDGE_WEIGHT }
}

/// The relations of the demonstration catalogue, entity by entity, each list in the
/// order in which its relations were made (weights in thousandths):
/// - Ana (customer 1) bought Notebook A (1.0), is interested in Monitor 27 4K (0.7)
///   and rated Notebook A (0.95); Bruno (2) bought Smartphone Z (1.0) and is
///   interested in Capa Smartphone Z (0.8); Carla (3) bought Rust em Ação (1.0) and is
///   interested in Camiseta Dev (0.5);
/// - Notebook A is similar to Notebook B (0.92), Teclado Mecânico Pro (0.8) and
///   Monitor 27 4K (0.7); Notebook B to Mouse X (0.75); Smartphone Z to its Capa
///   (0.95); Rust em Ação to Algoritmos Ilustrados (0.88); Mesa Escritório to
///   Monitor 27 4K (0.6);
/// - each product is tied to its category, and each category to its products in
///   product order.
pub open spec fn demo_relations(s: StoreView) -> bool {
    &&& s.graph.edges_of(s.customer_vertices[1].0) == seq![
        to_product(s, 1, EdgeType::Purchased, 1000),
        to_product(s, 5, EdgeType::Interested, 700),
        to_product(s, 1, EdgeType::Rated, 950),
    ]
    &&& s.graph.edges_of(s.customer_vertices[2].0) == seq![
        to_product(s, 6, EdgeType::Purchased, 1000),
        to_product(s, 7, EdgeType::Interested, 800),
    ]
    &&& s.graph.edges_of(s.customer_vertices[3].0) == seq![
        to_product(s, 8, EdgeType::Purchased, 1000),
        to_product(s, 12, EdgeType::Interested, 500),
    ]
    &&& s.graph.edges_of(s.product_vertices[1].0) == seq![
        to_category(s, 2),
        to_product(s, 2, EdgeType::Similar, 920),
        to_product(s, 4, EdgeType::Similar, 800),
        to_product(s, 5, EdgeType::Similar, 700),
        to_customer(s, 1, EdgeType::Purchased, 1000),
        to_customer(s, 1, EdgeType::Rated, 950),
    ]
    &&& s.graph.edges_of(s.product_vertices[2].0) == seq![
        to_category(s, 2),
        to_product(s, 1, EdgeType::Similar, 920),
        to_product(s, 3, EdgeType::Similar, 750),
    ]
    &&& s.graph.edges_of(s.product_vertices[3].0) == seq![
        to_category(s, 2),
        to_product(s, 2, EdgeType::Similar, 750),
    ]
    &&& s.graph.edges_of(s.product_vertices[4].0) == seq![
        to_category(s, 2),
        to_product(s, 1, EdgeType::Similar, 800),
    ]
    &&& s.graph.edges_of(s.product_vertices[5].0) == seq![
        to_category(s, 1),
        to_product(s, 1, EdgeType::Similar, 700),
        to_product(s, 11, EdgeType::Similar, 600),
        to_customer(s, 1, EdgeType::Interested, 700),
    ]
    &&& s.graph.edges_of(s.product_vertices[6].0) == seq![
        to_category(s, 3),
        to_product(s, 7, EdgeType::Similar, 950),
        to_customer(s, 2, EdgeType::Purchased, 1000),
    ]
    &&& s.graph.edges_of(s.product_vertices[7].0) == seq![
        to_category(s, 3),
        to_product(s, 6, EdgeType::Similar, 950),
        to_customer(s, 2, EdgeType::Interested, 800),
    ]
    &&& s.graph.edges_of(s.product_vertices[8].0) == seq![
        to_category(s, 4),
        to_product(s, 9, EdgeType::Similar, 880),
        to_customer(s, 3, EdgeType::Purchased, 1000),
    ]
    &&& s.graph.edges_of(s.product_vertices[9].0) == seq![
        to_category(s, 4),
        to_product(s, 8, EdgeType::Similar, 880),
    ]
    &&& s.graph.edges_of(s.product_vertices[10].0) == seq![
        to_category(s, 5),
    ]
    &&& s.graph.edges_of(s.product_vertices[11].0) == seq![
        to_category(s, 6),
        to_product(s, 5, EdgeType::Similar, 600),
    ]
    &&& s.graph.edges_of(s.product_vertices[12].0) == seq![
        to_category(s, 7),
        to_customer(s, 3, EdgeType::Interested, 500),
    ]
    &&& s.graph.edges_of(s.category_vertices[1].0) == seq![
        to_product(s, 5, EdgeType::BelongsTo, CATEGORY_EDGE_WEIGHT),
    ]
    &&& s.graph.edges_of(s.category_vertices[2].0) == seq![
        to_product(s, 1, EdgeType::BelongsTo, CATEGORY_EDGE_WEIGHT),
        to_product(s, 2, EdgeType::BelongsTo, CATEGORY_EDGE_WEIGHT),
        to_product(s, 3, EdgeType::BelongsTo, CATEGORY_EDGE_WEIGHT),
        to_product(s, 4, EdgeType::BelongsTo, CATEGORY_EDGE_WEIGHT),
    ]
    &&& s.graph.edges_of(s.category_vertices[3].0) == seq![
        to_product(s, 6, EdgeType::BelongsTo, CATEGORY_EDGE_WEIGHT),
        to_product(s, 7, EdgeType::BelongsTo, CATEGORY_EDGE_WEIGHT),
    ]
    &&& s.graph.edges_of(s.category_vertices[4].0) == seq![
        to_product(s, 8, EdgeType::BelongsTo, CATEGORY_EDGE_WEIGHT),
        to_product(s, 9, EdgeType::BelongsTo, CATEGORY_EDGE_WEIGHT),
    ]
    &&& s.graph.edges_of(s.category_vertices[5].0) == seq![
        to_product(s, 10, EdgeType::BelongsTo, CATEGORY_EDGE_WEIGHT),
    ]
    &&& s.graph.edges_of(s.category_vertices[6].0) == seq![
        to_product(s, 11, EdgeType::BelongsTo, CATEGORY_EDGE_WEIGHT),
    ]
    &&& s.graph.edges_of(s.category_vertices[7].0) == seq![
        to_product(s, 12, EdgeType::BelongsTo, CATEGORY_EDGE_WEIGHT),
    ]
}

/// The demonstration graph, described by its vertex kinds and links, gives every
/// entity of the catalogue exactly the relations of `demo_relations`.
pub proof fn demo_links_make_the_demo_relations(s: StoreView)
    requires
        s.graph == linked_graph(demo_kinds(), demo_links()),
        s.category_vertices == Map::new(|k: u64| 1 <= k <= 7, |k: u64| VertexId(k)),
        s.product_vertices == Map::new(|k: u64| 1 <= k <= 12, |k: u64| VertexId((k + 7) as u64)),
        s.customer_vertices == Map::new(|k: u64| 1 <= k <= 3, |k: u64| VertexId((k + 19) as u64)),
    ensures
        demo_relations(s),
{
    assert(link_edges_at(demo_links(), 20) =~= seq![
        Edge { to: VertexId(8), edge_type: EdgeType::Purchased, weight: 1000 },
        Edge { to: VertexId(12), edge_type: EdgeType::Interested, weight: 700 },
        Edge { to: VertexId(8), edge_type: EdgeType::Rated, weight: 950 },
    ]) by {
        lemma_link_edges_flat(demo_links(), 20);
        reveal_with_fuel(edges_of_links, 27);
    }
    assert(link_edges_at(demo_links(), 21) =~= seq![
        Edge { to: VertexId(13), edge_type: EdgeType::Purchased, weight: 1000 },
        Edge { to: VertexId(14), edge_type: EdgeType::Interested, weight: 800 },
    ]) by {
        lemma_link_edges_flat(demo_links(), 21);
        reveal_with_fuel(edges_of_links, 27);
    }
    assert(link_edges_at(demo_links(), 22) =~= seq![
        Edge { to: VertexId(15), edge_type: EdgeType::Purchased, weight: 1000 },
        Edge { to: VertexId(19), edge_type: EdgeType::Interested, weight: 500 },
    ]) by {
        lemma_link_edges_flat(demo_links(), 22);
        reveal_with_fuel(edges_of_links, 27);
    }
    assert(link_edges_at(demo_links(), 8) =~= seq![
        Edge { to: VertexId(2), edge_type: EdgeType::BelongsTo, weight: CATEGORY_EDGE_WEIGHT },
        Edge { to: VertexId(9), edge_type: EdgeType::Similar, weight: 920 },
        Edge { to: VertexId(11), edge_type: EdgeType::Similar, weight: 800 },
        Edge { to: VertexId(12), edge_type: EdgeType::Similar, weight: 700 },
        Edge { to: VertexId(20), edge_type: EdgeType::Purchased, weight: 1000 },
        Edge { to: VertexId(20), edge_type: EdgeType::Rated, weight: 950 },
    ]) by {
        lemma_link_edges_flat(demo_links(), 8);
        reveal_with_fuel(edges_of_links, 27);
    }
    assert(link_edges_at(demo_links(), 9) =~= seq![
        Edge { to: VertexId(2), edge_type: EdgeType::BelongsTo, weight: CATEGORY_EDGE_WEIGHT },
        Edge { to: VertexId(8), edge_type: EdgeType::Similar, weight: 920 },
        Edge { to: VertexId(10), edge_type: EdgeType::Similar, weight: 750 },
    ]) by {
        lemma_link_edges_flat(demo_links(), 9);
        reveal_with_fuel(edges_of_links, 27);
    }
    assert(link_edges_at(demo_links(), 10) =~= seq![
        Edge { to: VertexId(2), edge_type: EdgeType::BelongsTo, weight: CATEGORY_EDGE_WEIGHT },
        Edge { to: VertexId(9), edge_type: EdgeType::Similar, weight: 750 },
    ]) by {
        lemma_link_edges_flat(demo_links(), 10);
        reveal_with_fuel(edges_of_links, 27);
    }
    assert(link_edges_at(demo_links(), 11) =~= seq![
        Edge { to: VertexId(2), edge_type: EdgeType::BelongsTo, weight: CATEGORY_EDGE_WEIGHT },
        Edge { to: VertexId(8), edge_type: EdgeType::Similar, weight: 800 },
    ]) by {
        lemma_link_edges_flat(demo_links(), 11);
        reveal_with_fuel(edges_of_links, 27);
    }
    assert(link_edges_at(demo_links(), 12) =~= seq![
        Edge { to: VertexId(1), edge_type: EdgeType::BelongsTo, weight: CATEGORY_EDGE_WEIGHT },
        Edge { to: VertexId(8), edge_type: EdgeType::Similar, weight: 700 },
        Edge { to: VertexId(18), edge_type: EdgeType::Similar, weight: 600 },
        Edge { to: VertexId(20), edge_type: EdgeType::Interested, weight: 700 },
    ]) by {
        lemma_link_edges_flat(demo_links(), 12);
        reveal_with_fuel(edges_of_links, 27);
    }
    assert(link_edges_at(demo_links(), 13) =~= seq![
        Edge { to: VertexId(3), edge_type: EdgeType::BelongsTo, weight: CATEGORY_EDGE_WEIGHT },
        Edge { to: VertexId(14), edge_type: EdgeType::Similar, weight: 950 },
        Edge { to: VertexId(21), edge_type: EdgeType::Purchased, weight: 1000 },
    ]) by {
        lemma_link_edges_flat(demo_links(), 13);
        reveal_with_fuel(edges_of_links, 27);
    }
    assert(link_edges_at(demo_links(), 14) =~= seq![
        Edge { to: VertexId(3), edge_type: EdgeType::BelongsTo, weight: CATEGORY_EDGE_WEIGHT },
        Edge { to: VertexId(13), edge_type: EdgeType::Similar, weight: 950 },
        Edge { to: VertexId(21), edge_type: EdgeType::Interested, weight: 800 },
    ]) by {
        lemma_link_edges_flat(demo_links(), 14);
        reveal_with_fuel(edges_of_links, 27);
    }
    assert(link_edges_at(demo_links(), 15) =~= seq![
        Edge { to: VertexId(4), edge_type: EdgeType::BelongsTo, weight: CATEGORY_EDGE_WEIGHT },
        Edge { to: VertexId(16), edge_type: EdgeType::Similar, weight: 880 },
        Edge { to: VertexId(22), edge_type: EdgeType::Purchased, weight: 1000 },
    ]) by {
        lemma_link_edges_flat(demo_links(), 15);
        reveal_with_fuel(edges_of_links, 27);
    }
    assert(link_edges_at(demo_links(), 16) =~= seq![
        Edge { to: VertexId(4), edge_type: EdgeType::BelongsTo, weight: CATEGORY_EDGE_WEIGHT },
        Edge { to: VertexId(15), edge_type: EdgeType::Similar, weight: 880 },
    ]) by {
        lemma_link_edges_flat(demo_links(), 16);
        reveal_with_fuel(edges_of_links, 27);
    }
    assert(link_edges_at(demo_links(), 17) =~= seq![
        Edge { to: VertexId(5), edge_type: EdgeType::BelongsTo, weight: CATEGORY_EDGE_WEIGHT },
    ]) by {
        lemma_link_edges_flat(demo_links(), 17);
        reveal_with_fuel(edges_of_links, 27);
    }
    assert(link_edges_at(demo_links(), 18) =~= seq![
        Edge { to: VertexId(6), edge_type: EdgeType::BelongsTo, weight: CATEGORY_EDGE_WEIGHT },
        Edge { to: VertexId(12), edge_type: EdgeType::Similar, weight: 600 },
    ]) by {
        lemma_link_edges_flat(demo_links(), 18);
        reveal_with_fuel(edges_of_links, 27);
    }
    assert(link_edges_at(demo_links(), 19) =~= seq![
        Edge { to: VertexId(7), edge_type: EdgeType::BelongsTo, weight: CATEGORY_EDGE_WEIGHT },
        Edge { to: VertexId(22), edge_type: EdgeType::Interested, weight: 500 },
    ]) by {
        lemma_link_edges_flat(demo_links(), 19);
        reveal_with_fuel(edges_of_links, 27);
    }
    assert(link_edges_at(demo_links(), 1) =~= seq![
        Edge { to: VertexId(12), edge_type: EdgeType::BelongsTo, weight: CATEGORY_EDGE_WEIGHT },
    ]) by {
        lemma_link_edges_flat(demo_links(), 1);
        reveal_with_fuel(edges_of_links, 27);
    }
    assert(link_edges_at(demo_links(), 2) =~= seq![
        Edge { to: VertexId(8), edge_type: EdgeType::BelongsTo, weight: CATEGORY_EDGE_WEIGHT },
        Edge { to: VertexId(9), edge_type: EdgeType::BelongsTo, weight: CATEGORY_EDGE_WEIGHT },
        Edge { to: VertexId(10), edge_type: EdgeType::BelongsTo, weight: CATEGORY_EDGE_WEIGHT },
        Edge { to: VertexId(11), edge_type: EdgeType::BelongsTo, weight: CATEGORY_EDGE_WEIGHT },
    ]) by {
        lemma_link_edges_flat(demo_links(), 2);
        reveal_with_fuel(edges_of_links, 27);
    }
    assert(link_edges_at(demo_links(), 3) =~= seq![
        Edge { to: VertexId(13), edge_type: EdgeType::BelongsTo, weight: CATEGORY_EDGE_WEIGHT },
        Edge { to: VertexId(14), edge_type: EdgeType::BelongsTo, weight: CATEGORY_EDGE_WEIGHT },
    ]) by {
        lemma_link_edges_flat(demo_links(), 3);
        reveal_with_fuel(edges_of_links, 27);
    }
    assert(link_edges_at(demo_links(), 4) =~= seq![
        Edge { to: VertexId(15), edge_type: EdgeType::BelongsTo, weight: CATEGORY_EDGE_WEIGHT },
        Edge { to: VertexId(16), edge_type: EdgeType::BelongsTo, weight: CATEGORY_EDGE_WEIGHT },
    ]) by {
        lemma_link_edges_flat(demo_links(), 4);
        reveal_with_fuel(edges_of_links, 27);
    }
    assert(link_edges_at(demo_links(), 5) =~= seq![
        Edge { to: VertexId(17), edge_type: EdgeType::BelongsTo, weight: CATEGORY_EDGE_WEIGHT },
    ]) by {
        lemma_link_edges_flat(demo_links(), 5);
        reveal_with_fuel(edges_of_links, 27);
    }
    assert(link_edges_at(demo_links(), 6) =~= seq![
        Edge { to: VertexId(18), edge_type: EdgeType::BelongsTo, weight: CATEGORY_EDGE_WEIGHT },
    ]) by {
        lemma_link_edges_flat(demo_links(), 6);
        reveal_with_fuel(edges_of_links, 27);
    }
    assert(link_edges_at(demo_links(), 7) =~= seq![
        Edge { to: VertexId(19), edge_type: EdgeType::BelongsTo, weight: CATEGORY_EDGE_WEIGHT },
    ]) by {
        lemma_link_edges_flat(demo_links(), 7);
        reveal_with_fuel(edges_of_links, 27);
    }
}

} // verus!
