use vstd::prelude::*;
use vstd::string::StringExecFns;

use crate::decimal::{decimal, decimal_text};
use crate::document::{
    attributes_model, lemma_nodes_model_push, node_model, nodes_html,
    nodes_model, strings_model, text, Document, DocumentNode, NodeModel,
};
use crate::proxy::{
    names_unique, percent, percent_of, LargeModelProxyResourceStatus, LargeModelProxyServiceStatus,
    LargeModelProxyStatus,
};
use crate::service::{resolved_url, Service};

verus! {

/// An element with one class and the given children.
pub open spec fn classed(tag: Seq<char>, class: Seq<char>, children: Seq<NodeModel>) -> NodeModel {
    NodeModel::Element(tag, seq![("class"@, class)], children)
}

/// An element with one class that holds one piece of text.
pub open spec fn labelled(tag: Seq<char>, class: Seq<char>, label: Seq<char>) -> NodeModel {
    classed(tag, class, seq![NodeModel::Text(label)])
}

/// A link that shows its own address.
pub open spec fn link_tile_part(url: Seq<char>) -> NodeModel {
    NodeModel::Element(
        "a"@,
        seq![("class"@, "tile-link"@), ("href"@, url)],
        seq![NodeModel::Text(url)],
    )
}

/// The tile of a local service: its name and its link.
pub open spec fn local_tile(name: Seq<char>, url: Seq<char>) -> NodeModel {
    classed("div"@, "tile local"@, seq![labelled("h2"@, "tile-title"@, name), link_tile_part(url)])
}

/// The placeholder that stands for a proxy whose status could not be had.
pub open spec fn unavailable_tile(name: Seq<char>) -> NodeModel {
    classed(
        "div"@,
        "tile unavailable"@,
        seq![
            labelled("h2"@, "tile-title"@, name),
            labelled("p"@, "status-unavailable"@, "status unavailable"@),
        ],
    )
}

/// `used/total` in decimal.
pub open spec fn count_text(used: nat, total: nat) -> Seq<char> {
    decimal_text(used) + "/"@ + decimal_text(total)
}

/// A utilization bar filled to `pct` percent.
pub open spec fn bar(pct: nat) -> NodeModel {
    classed(
        "div"@,
        "bar"@,
        seq![
            NodeModel::Element(
                "div"@,
                seq![("class"@, "bar-fill"@), ("style"@, "width: "@ + decimal_text(pct) + "%"@)],
                seq![],
            ),
        ],
    )
}

/// One line of usage: a name, `used/total`, and a bar when asked for.
pub open spec fn usage_row(name: Seq<char>, used: nat, total: nat, with_bar: bool) -> NodeModel {
    let cells = seq![
        labelled("span"@, "usage-name"@, name),
        labelled("span"@, "usage-count"@, count_text(used, total)),
    ];
    classed("div"@, "usage"@, if with_bar { cells.push(bar(percent_of(used, total))) } else { cells })
}

pub open spec fn resource_row(r: (String, LargeModelProxyResourceStatus)) -> NodeModel {
    usage_row(r.0@, r.1.total_in_use as nat, r.1.total_available as nat, true)
}

/// The proxy's summary tile: one usage line with a bar for each resource.
pub open spec fn summary_tile(
    name: Seq<char>,
    resources: Seq<(String, LargeModelProxyResourceStatus)>,
) -> NodeModel {
    classed(
        "div"@,
        "tile summary"@,
        seq![labelled("h2"@, "tile-title"@, name)] + resources.map_values(
            |r: (String, LargeModelProxyResourceStatus)| resource_row(r),
        ),
    )
}

/// How much of the named resource there is in all, zero when it is not reported;
/// names are unique in a well-formed status (see `lemma_available_total_of_entry`).
pub open spec fn available_total(
    resources: Seq<(String, LargeModelProxyResourceStatus)>,
    name: Seq<char>,
) -> nat
    decreases resources.len(),
{
    if resources.len() == 0 {
        0
    } else if resources.last().0@ == name {
        resources.last().1.total_available as nat
    } else {
        available_total(resources.drop_last(), name)
    }
}

/// With unique resource names, the total looked up for a reported resource is
/// that resource's own.
pub proof fn lemma_available_total_of_entry(
    resources: Seq<(String, LargeModelProxyResourceStatus)>,
    k: int,
)
    requires
        names_unique(resources),
        0 <= k < resources.len(),
    ensures
        available_total(resources, resources[k].0@) == resources[k].1.total_available as nat,
    decreases resources.len(),
{
    if k < resources.len() - 1 {
        let init = resources.drop_last();
        assert(init[k] == resources[k]);
        assert(names_unique(init)) by {
            assert forall|i: int, j: int|
                0 <= i < init.len() && 0 <= j < init.len() && i != j implies init[i].0@
                != init[j].0@ by {
                assert(init[i] == resources[i] && init[j] == resources[j]);
            }
        }
        lemma_available_total_of_entry(init, k);
        assert(resources.last() == resources[resources.len() - 1]);
    }
}

pub open spec fn requirement_row(
    q: (String, u32),
    resources: Seq<(String, LargeModelProxyResourceStatus)>,
    running: bool,
) -> NodeModel {
    usage_row(q.0@, q.1 as nat, available_total(resources, q.0@), running)
}

/// The style class of a sub-service's tile.
pub open spec fn service_class(running: bool) -> Seq<char> {
    if running {
        "tile running"@
    } else {
        "tile stopped"@
    }
}

/// The tile of one sub-service of the proxy: its requirements as
/// `required/available_total`, with bars only while it runs.
pub open spec fn service_tile(
    svc: LargeModelProxyServiceStatus,
    resources: Seq<(String, LargeModelProxyResourceStatus)>,
) -> NodeModel {
    classed(
        "div"@,
        service_class(svc.is_running),
        seq![labelled("h3"@, "tile-title"@, svc.name@), link_tile_part(svc.service_url@)]
            + svc.resource_requirements@.map_values(
            |q: (String, u32)| requirement_row(q, resources, svc.is_running),
        ),
    )
}

/// The tiles of a proxy whose status was obtained: the summary, then one tile
/// per sub-service in reported order.
pub open spec fn proxy_tiles(name: Seq<char>, status: LargeModelProxyStatus) -> Seq<NodeModel> {
    seq![summary_tile(name, status.resources@)] + status.services@.map_values(
        |s: LargeModelProxyServiceStatus| service_tile(s, status.resources@),
    )
}

/// The tiles of one registry entry.
pub open spec fn entry_tiles(
    name: Seq<char>,
    service: Service,
    base_url: Seq<char>,
    status: Option<LargeModelProxyStatus>,
) -> Seq<NodeModel> {
    match service {
        Service::Local { .. } => seq![local_tile(name, resolved_url(service, base_url))],
        Service::RemoteProxy(_) => match status {
            Some(st) => proxy_tiles(name, st),
            None => seq![unavailable_tile(name)],
        },
    }
}

/// The tiles of the whole registry, entry after entry; `statuses[i]` is what
/// was gathered for entry `i`.
pub open spec fn dashboard_tiles(
    registry: Seq<(String, Service)>,
    base_url: Seq<char>,
    statuses: Seq<Option<LargeModelProxyStatus>>,
) -> Seq<NodeModel>
    decreases registry.len(),
{
    if registry.len() == 0 {
        seq![]
    } else {
        dashboard_tiles(registry.drop_last(), base_url, statuses.drop_last()) + entry_tiles(
            registry.last().0@,
            registry.last().1,
            base_url,
            statuses.last(),
        )
    }
}

/// The fixed page shell around the tiles: head with the stylesheet, a header
/// banner, and the tiles in the main section.
pub open spec fn page_shell(tiles: Seq<NodeModel>) -> NodeModel {
    NodeModel::Element(
        "html"@,
        seq![("lang"@, "en"@)],
        seq![
            NodeModel::Element(
                "head"@,
                seq![],
                seq![
                    NodeModel::Element("meta"@, seq![("charset"@, "utf-8"@)], seq![]),
                    NodeModel::Element("title"@, seq![], seq![NodeModel::Text("Dashboard"@)]),
                    NodeModel::Element(
                        "link"@,
                        seq![("rel"@, "stylesheet"@), ("href"@, "/styles.css"@)],
                        seq![],
                    ),
                ],
            ),
            NodeModel::Element(
                "body"@,
                seq![],
                seq![
                    classed("header"@, "banner"@, seq![labelled("h1"@, "banner-title"@, "Dashboard"@)]),
                    classed("main"@, "tiles"@, tiles),
                ],
            ),
        ],
    )
}

/// The text of the dashboard page.
pub open spec fn dashboard_html(
    registry: Seq<(String, Service)>,
    base_url: Seq<char>,
    statuses: Seq<Option<LargeModelProxyStatus>>,
) -> Seq<char> {
    nodes_html(
        seq![
            NodeModel::Doctype(seq!["html"@]),
            page_shell(dashboard_tiles(registry, base_url, statuses)),
        ],
    )
}

/// The tiles of two registries one after the other are the tiles of each in turn.
pub proof fn lemma_dashboard_tiles_split(
    r1: Seq<(String, Service)>,
    s1: Seq<Option<LargeModelProxyStatus>>,
    r2: Seq<(String, Service)>,
    s2: Seq<Option<LargeModelProxyStatus>>,
    base_url: Seq<char>,
)
    requires
        r1.len() == s1.len(),
        r2.len() == s2.len(),
    ensures
        dashboard_tiles(r1 + r2, base_url, s1 + s2) == dashboard_tiles(r1, base_url, s1)
            + dashboard_tiles(r2, base_url, s2),
    decreases r2.len(),
{
    if r2.len() == 0 {
        assert(r1 + r2 =~= r1);
        assert(s1 + s2 =~= s1);
    } else {
        lemma_dashboard_tiles_split(r1, s1, r2.drop_last(), s2.drop_last(), base_url);
        assert((r1 + r2).drop_last() =~= r1 + r2.drop_last());
        assert((s1 + s2).drop_last() =~= s1 + s2.drop_last());
    }
}

/// A proxy whose status fetch failed is shown as the "status unavailable"
/// placeholder alone, and the tiles of every other entry, before and after
/// it, are exactly what they would be on their own.
pub proof fn fetch_failure_degrades_only_its_entry(
    registry: Seq<(String, Service)>,
    base_url: Seq<char>,
    statuses: Seq<Option<LargeModelProxyStatus>>,
    k: int,
)
    requires
        statuses.len() == registry.len(),
        0 <= k < registry.len(),
        registry[k].1 is RemoteProxy,
        statuses[k] is None,
    ensures
        dashboard_tiles(registry, base_url, statuses) == dashboard_tiles(
            registry.take(k),
            base_url,
            statuses.take(k),
        ) + seq![unavailable_tile(registry[k].0@)] + dashboard_tiles(
            registry.skip(k + 1),
            base_url,
            statuses.skip(k + 1),
        ),
{
    let rk = registry.take(k + 1);
    let sk = statuses.take(k + 1);
    assert(registry =~= rk + registry.skip(k + 1));
    assert(statuses =~= sk + statuses.skip(k + 1));
    lemma_dashboard_tiles_split(rk, sk, registry.skip(k + 1), statuses.skip(k + 1), base_url);
    assert(rk.drop_last() =~= registry.take(k));
    assert(sk.drop_last() =~= statuses.take(k));
}

/// A local service is always shown in full, as its tile with the link
/// `{base_url}:{port}/`, whatever status was gathered.
pub proof fn local_entry_is_always_shown(
    name: Seq<char>,
    port: u16,
    base_url: Seq<char>,
    status: Option<LargeModelProxyStatus>,
)
    ensures
        entry_tiles(name, Service::Local { port }, base_url, status) == seq![
            local_tile(name, base_url + ":"@ + decimal_text(port as nat) + "/"@),
        ],
{
}

fn append_node(v: &mut Vec<DocumentNode>, n: DocumentNode)
    ensures
        nodes_model(final(v)@) == nodes_model(old(v)@).push(node_model(n)),
{
    proof {
        lemma_nodes_model_push(v@, n);
    }
    v.push(n);
}

fn element_with(tag: &str, attributes: Vec<(String, String)>, children: Vec<DocumentNode>) -> (r:
    DocumentNode)
    ensures
        node_model(r) == NodeModel::Element(
            tag@,
            attributes_model(attributes@),
            nodes_model(children@),
        ),
{
    DocumentNode::Element { tag: String::from_str(tag), attributes, children }
}

fn one_attribute(name: &str, value: &str) -> (r: Vec<(String, String)>)
    ensures
        attributes_model(r@) == seq![(name@, value@)],
{
    let mut r: Vec<(String, String)> = Vec::new();
    r.push((String::from_str(name), String::from_str(value)));
    assert(attributes_model(r@) =~= seq![(name@, value@)]);
    r
}

fn two_attributes(n1: &str, v1: &str, n2: &str, v2: &str) -> (r: Vec<(String, String)>)
    ensures
        attributes_model(r@) == seq![(n1@, v1@), (n2@, v2@)],
{
    let mut r: Vec<(String, String)> = Vec::new();
    r.push((String::from_str(n1), String::from_str(v1)));
    r.push((String::from_str(n2), String::from_str(v2)));
    assert(attributes_model(r@) =~= seq![(n1@, v1@), (n2@, v2@)]);
    r
}

fn classed_node(tag: &str, class: &str, children: Vec<DocumentNode>) -> (r: DocumentNode)
    ensures
        node_model(r) == classed(tag@, class@, nodes_model(children@)),
{
    element_with(tag, one_attribute("class", class), children)
}

fn labelled_node(tag: &str, class: &str, label: &str) -> (r: DocumentNode)
    ensures
        node_model(r) == labelled(tag@, class@, label@),
{
    let mut kids: Vec<DocumentNode> = Vec::new();
    append_node(&mut kids, text(label));
    assert(nodes_model(kids@) =~= seq![NodeModel::Text(label@)]);
    classed_node(tag, class, kids)
}

fn link_node(url: &str) -> (r: DocumentNode)
    ensures
        node_model(r) == link_tile_part(url@),
{
    let mut kids: Vec<DocumentNode> = Vec::new();
    append_node(&mut kids, text(url));
    assert(nodes_model(kids@) =~= seq![NodeModel::Text(url@)]);
    element_with("a", two_attributes("class", "tile-link", "href", url), kids)
}

fn pair(a: DocumentNode, b: DocumentNode) -> (r: Vec<DocumentNode>)
    ensures
        nodes_model(r@) == seq![node_model(a), node_model(b)],
{
    let mut r: Vec<DocumentNode> = Vec::new();
    append_node(&mut r, a);
    append_node(&mut r, b);
    assert(nodes_model(r@) =~= seq![node_model(a), node_model(b)]);
    r
}

fn local_tile_node(name: &str, url: &str) -> (r: DocumentNode)
    ensures
        node_model(r) == local_tile(name@, url@),
{
    classed_node("div", "tile local", pair(labelled_node("h2", "tile-title", name), link_node(url)))
}

fn unavailable_tile_node(name: &str) -> (r: DocumentNode)
    ensures
        node_model(r) == unavailable_tile(name@),
{
    classed_node(
        "div",
        "tile unavailable",
        pair(
            labelled_node("h2", "tile-title", name),
            labelled_node("p", "status-unavailable", "status unavailable"),
        ),
    )
}

fn count_label(used: u64, total: u64) -> (r: String)
    ensures
        r@ == count_text(used as nat, total as nat),
{
    let mut r = decimal(used);
    r.append("/");
    let t = decimal(total);
    r.append(t.as_str());
    r
}

fn bar_node(pct: u64) -> (r: DocumentNode)
    ensures
        node_model(r) == bar(pct as nat),
{
    let mut width = String::from_str("width: ");
    let digits = decimal(pct);
    width.append(digits.as_str());
    width.append("%");
    let fill = element_with("div", two_attributes("class", "bar-fill", "style", width.as_str()), Vec::new());
    let mut kids: Vec<DocumentNode> = Vec::new();
    append_node(&mut kids, fill);
    assert(nodes_model(kids@) =~= seq![node_model(fill)]);
    assert(nodes_model(Seq::<DocumentNode>::empty()) =~= Seq::<NodeModel>::empty());
    classed_node("div", "bar", kids)
}

fn usage_row_node(name: &str, used: u32, total: u32, with_bar: bool) -> (r: DocumentNode)
    ensures
        node_model(r) == usage_row(name@, used as nat, total as nat, with_bar),
{
    let count = count_label(used as u64, total as u64);
    let mut cells = pair(
        labelled_node("span", "usage-name", name),
        labelled_node("span", "usage-count", count.as_str()),
    );
    if with_bar {
        append_node(&mut cells, bar_node(percent(used, total)));
    }
    classed_node("div", "usage", cells)
}

fn find_available_total(resources: &Vec<(String, LargeModelProxyResourceStatus)>, name: &String) -> (r:
    u32)
    ensures
        r as nat == available_total(resources@, name@),
{
    let mut i: usize = resources.len();
    assert(resources@.subrange(0, i as int) =~= resources@);
    while i > 0
        invariant
            i <= resources@.len(),
            available_total(resources@, name@) == available_total(
                resources@.subrange(0, i as int),
                name@,
            ),
        decreases i,
    {
        let ghost pre = resources@.subrange(0, i as int);
        assert(pre.last() == resources@[i - 1]);
        assert(pre.drop_last() =~= resources@.subrange(0, i - 1));
        if resources[i - 1].0 == *name {
            return resources[i - 1].1.total_available;
        }
        i = i - 1;
    }
    0
}

fn summary_tile_node(name: &str, resources: &Vec<(String, LargeModelProxyResourceStatus)>) -> (r:
    DocumentNode)
    ensures
        node_model(r) == summary_tile(name@, resources@),
{
    let mut kids: Vec<DocumentNode> = Vec::new();
    append_node(&mut kids, labelled_node("h2", "tile-title", name));
    let ghost head = seq![labelled("h2"@, "tile-title"@, name@)];
    assert(nodes_model(kids@) =~= head);
    let mut i: usize = 0;
    while i < resources.len()
        invariant
            i <= resources@.len(),
            nodes_model(kids@) == head + resources@.subrange(0, i as int).map_values(
                |r: (String, LargeModelProxyResourceStatus)| resource_row(r),
            ),
        decreases resources@.len() - i,
    {
        let (rname, res) = &resources[i];
        append_node(
            &mut kids,
            usage_row_node(rname.as_str(), res.total_in_use, res.total_available, true),
        );
        assert(head + resources@.subrange(0, i + 1).map_values(
            |r: (String, LargeModelProxyResourceStatus)| resource_row(r),
        ) =~= (head + resources@.subrange(0, i as int).map_values(
            |r: (String, LargeModelProxyResourceStatus)| resource_row(r),
        )).push(resource_row(resources@[i as int])));
        i = i + 1;
    }
    assert(resources@.subrange(0, resources@.len() as int) =~= resources@);
    classed_node("div", "tile summary", kids)
}

fn service_tile_node(
    svc: &LargeModelProxyServiceStatus,
    resources: &Vec<(String, LargeModelProxyResourceStatus)>,
) -> (r: DocumentNode)
    ensures
        node_model(r) == service_tile(*svc, resources@),
{
    let mut kids = pair(
        labelled_node("h3", "tile-title", svc.name.as_str()),
        link_node(svc.service_url.as_str()),
    );
    let ghost head = seq![labelled("h3"@, "tile-title"@, svc.name@), link_tile_part(svc.service_url@)];
    let reqs = &svc.resource_requirements;
    let running = svc.is_running;
    let mut i: usize = 0;
    while i < reqs.len()
        invariant
            i <= reqs@.len(),
            running == svc.is_running,
            *reqs == svc.resource_requirements,
            nodes_model(kids@) == head + reqs@.subrange(0, i as int).map_values(
                |q: (String, u32)| requirement_row(q, resources@, running),
            ),
        decreases reqs@.len() - i,
    {
        let (qname, required) = &reqs[i];
        let total = find_available_total(resources, qname);
        append_node(&mut kids, usage_row_node(qname.as_str(), *required, total, running));
        assert(head + reqs@.subrange(0, i + 1).map_values(
            |q: (String, u32)| requirement_row(q, resources@, running),
        ) =~= (head + reqs@.subrange(0, i as int).map_values(
            |q: (String, u32)| requirement_row(q, resources@, running),
        )).push(requirement_row(reqs@[i as int], resources@, running)));
        i = i + 1;
    }
    assert(reqs@.subrange(0, reqs@.len() as int) =~= reqs@);
    let class = if running {
        "tile running"
    } else {
        "tile stopped"
    };
    classed_node("div", class, kids)
}

fn push_proxy_tiles(out: &mut Vec<DocumentNode>, name: &str, status: &LargeModelProxyStatus)
    ensures
        nodes_model(final(out)@) == nodes_model(old(out)@) + proxy_tiles(name@, *status),
{
    let ghost start = nodes_model(out@);
    append_node(out, summary_tile_node(name, &status.resources));
    let ghost first = seq![summary_tile(name@, status.resources@)];
    let services = &status.services;
    let mut i: usize = 0;
    while i < services.len()
        invariant
            i <= services@.len(),
            *services == status.services,
            nodes_model(out@) == start + first + services@.subrange(0, i as int).map_values(
                |s: LargeModelProxyServiceStatus| service_tile(s, status.resources@),
            ),
        decreases services@.len() - i,
    {
        append_node(out, service_tile_node(&services[i], &status.resources));
        assert(start + first + services@.subrange(0, i + 1).map_values(
            |s: LargeModelProxyServiceStatus| service_tile(s, status.resources@),
        ) =~= (start + first + services@.subrange(0, i as int).map_values(
            |s: LargeModelProxyServiceStatus| service_tile(s, status.resources@),
        )).push(service_tile(services@[i as int], status.resources@)));
        i = i + 1;
    }
    assert(services@.subrange(0, services@.len() as int) =~= services@);
    assert(start + first + services@.map_values(
        |s: LargeModelProxyServiceStatus| service_tile(s, status.resources@),
    ) =~= start + proxy_tiles(name@, *status));
}

fn push_entry_tiles(
    out: &mut Vec<DocumentNode>,
    name: &String,
    service: &Service,
    base_url: &str,
    status: &Option<LargeModelProxyStatus>,
)
    ensures
        nodes_model(final(out)@) == nodes_model(old(out)@) + entry_tiles(
            name@,
            *service,
            base_url@,
            *status,
        ),
{
    let ghost start = nodes_model(out@);
    match service {
        Service::Local { .. } => {
            let url = service.resolve_url(base_url);
            append_node(out, local_tile_node(name.as_str(), url.as_str()));
            assert(start.push(local_tile(name@, url@)) =~= start + seq![local_tile(name@, url@)]);
        },
        Service::RemoteProxy(_) => match status {
            Some(st) => push_proxy_tiles(out, name.as_str(), st),
            None => {
                append_node(out, unavailable_tile_node(name.as_str()));
                assert(start.push(unavailable_tile(name@)) =~= start + seq![unavailable_tile(name@)]);
            },
        },
    }
}

/// The tiles of every registry entry, in registry order, from the status
/// gathered for each.
pub fn build_tiles(
    registry: &Vec<(String, Service)>,
    base_url: &str,
    statuses: &Vec<Option<LargeModelProxyStatus>>,
) -> (r: Vec<DocumentNode>)
    requires
        statuses@.len() == registry@.len(),
    ensures
        nodes_model(r@) == dashboard_tiles(registry@, base_url@, statuses@),
{
    let mut out: Vec<DocumentNode> = Vec::new();
    let mut i: usize = 0;
    while i < registry.len()
        invariant
            i <= registry@.len(),
            statuses@.len() == registry@.len(),
            nodes_model(out@) == dashboard_tiles(
                registry@.subrange(0, i as int),
                base_url@,
                statuses@.subrange(0, i as int),
            ),
        decreases registry@.len() - i,
    {
        let (name, service) = &registry[i];
        push_entry_tiles(&mut out, name, service, base_url, &statuses[i]);
        proof {
            let r1 = registry@.subrange(0, i + 1);
            let s1 = statuses@.subrange(0, i + 1);
            assert(r1.drop_last() =~= registry@.subrange(0, i as int));
            assert(s1.drop_last() =~= statuses@.subrange(0, i as int));
            assert(r1.last() == registry@[i as int]);
            assert(s1.last() == statuses@[i as int]);
        }
        i = i + 1;
    }
    assert(registry@.subrange(0, registry@.len() as int) =~= registry@);
    assert(statuses@.subrange(0, statuses@.len() as int) =~= statuses@);
    out
}

fn no_attributes() -> (r: Vec<(String, String)>)
    ensures
        attributes_model(r@) == Seq::<(Seq<char>, Seq<char>)>::empty(),
{
    let r: Vec<(String, String)> = Vec::new();
    assert(attributes_model(r@) =~= Seq::<(Seq<char>, Seq<char>)>::empty());
    r
}

fn no_children() -> (r: Vec<DocumentNode>)
    ensures
        nodes_model(r@) == Seq::<NodeModel>::empty(),
{
    Vec::new()
}

fn page_shell_node(tiles: Vec<DocumentNode>) -> (r: DocumentNode)
    ensures
        node_model(r) == page_shell(nodes_model(tiles@)),
{
    let meta = element_with("meta", one_attribute("charset", "utf-8"), no_children());
    let mut title_text: Vec<DocumentNode> = Vec::new();
    append_node(&mut title_text, text("Dashboard"));
    assert(nodes_model(title_text@) =~= seq![NodeModel::Text("Dashboard"@)]);
    let title = element_with("title", no_attributes(), title_text);
    let link = element_with(
        "link",
        two_attributes("rel", "stylesheet", "href", "/styles.css"),
        no_children(),
    );
    let mut head_kids: Vec<DocumentNode> = Vec::new();
    append_node(&mut head_kids, meta);
    append_node(&mut head_kids, title);
    append_node(&mut head_kids, link);
    assert(nodes_model(head_kids@) =~= seq![node_model(meta), node_model(title), node_model(link)]);
    let head = element_with("head", no_attributes(), head_kids);
    let mut banner_kids: Vec<DocumentNode> = Vec::new();
    append_node(&mut banner_kids, labelled_node("h1", "banner-title", "Dashboard"));
    assert(nodes_model(banner_kids@) =~= seq![labelled("h1"@, "banner-title"@, "Dashboard"@)]);
    let banner = classed_node("header", "banner", banner_kids);
    let main = classed_node("main", "tiles", tiles);
    let body = element_with("body", no_attributes(), pair(banner, main));
    element_with("html", one_attribute("lang", "en"), pair(head, body))
}

/// Renders the dashboard page: a doctype, then the page shell around the
/// tiles of every registry entry.
pub fn render_dashboard(
    registry: &Vec<(String, Service)>,
    base_url: &str,
    statuses: &Vec<Option<LargeModelProxyStatus>>,
) -> (r: String)
    requires
        statuses@.len() == registry@.len(),
    ensures
        r@ == dashboard_html(registry@, base_url@, statuses@),
{
    let tiles = build_tiles(registry, base_url, statuses);
    let root = page_shell_node(tiles);
    let mut parts: Vec<String> = Vec::new();
    parts.push(String::from_str("html"));
    assert(strings_model(parts@) =~= seq!["html"@]);
    let head = crate::document::doctype(parts);
    let page = Document::new(pair(head, root));
    page.serialize()
}

/// What to fetch for each registry entry: the status address of a remote
/// proxy, nothing for a local service.
pub fn fetch_targets(registry: &Vec<(String, Service)>) -> (r: Vec<Option<String>>)
    ensures
        r@.len() == registry@.len(),
        forall|i: int|
            0 <= i < registry@.len() ==> match #[trigger] registry@[i].1 {
                Service::Local { .. } => r@[i] is None,
                Service::RemoteProxy(p) => r@[i] is Some && r@[i]->Some_0@ == p@ + "/status"@,
            },
{
    let mut r: Vec<Option<String>> = Vec::new();
    let mut i: usize = 0;
    while i < registry.len()
        invariant
            i <= registry@.len(),
            r@.len() == i,
            forall|j: int|
                0 <= j < i ==> match #[trigger] registry@[j].1 {
                    Service::Local { .. } => r@[j] is None,
                    Service::RemoteProxy(p) => r@[j] is Some && r@[j]->Some_0@ == p@ + "/status"@,
                },
        decreases registry@.len() - i,
    {
        match &registry[i].1 {
            Service::Local { .. } => r.push(None),
            Service::RemoteProxy(p) => r.push(Some(p.status_url())),
        }
        i = i + 1;
    }
    r
}

} // verus!
