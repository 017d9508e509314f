//! The boot lifecycle's own rules: the table of loaded plugin manifests
//! that boot prints before resolving them (plugin, exposed capabilities,
//! their contracts, requirements) with aligned columns; the check that
//! every runtime plugin has a loaded manifest; and the teardown that
//! revokes the runtime plugins' slots in reverse mint order.

use vstd::prelude::*;
use crate::builtins::prompt::{joined, string_views};
use crate::text::{decimal, push_decimal, str_eq};
use crate::types::manifest::{CapabilityDecl, CapabilityRequirement, PluginManifest};
use crate::kernel::cspace::{severed, subtree_order, Capability, CapabilitySpace, Entry};
use crate::kernel::factory::CapabilityFactory;
use crate::types::ids::CapKind;
use crate::types::quota::QuotaSpec;
use crate::kernel::events::GraphEvent;
use crate::types::ids::{PluginId, SlotId};

verus! {

/// Names of the exposed capabilities.
pub open spec fn expose_names(ds: Seq<CapabilityDecl>) -> Seq<Seq<char>> {
    ds.map_values(|d: CapabilityDecl| d.name@)
}

/// The non-empty contract names of the exposed capabilities, in order.
pub open spec fn contract_names(ds: Seq<CapabilityDecl>) -> Seq<Seq<char>>
    decreases ds.len(),
{
    if ds.len() == 0 {
        Seq::empty()
    } else {
        let rest = contract_names(ds.drop_last());
        if ds.last().contract_name@.len() > 0 {
            rest.push(ds.last().contract_name@)
        } else {
            rest
        }
    }
}

/// `handle→contract` for each requirement.
pub open spec fn requirement_texts(rs: Seq<CapabilityRequirement>) -> Seq<Seq<char>> {
    rs.map_values(|r: CapabilityRequirement| r.name@ + "\u{2192}"@ + r.contract@)
}

/// The four cells of a manifest's row.
pub open spec fn manifest_row(m: PluginManifest) -> (Seq<char>, Seq<char>, Seq<char>, Seq<char>) {
    (
        m.plugin.name@ + "@"@ + m.plugin.version@,
        joined(expose_names(m.exposes@), ","@),
        joined(contract_names(m.exposes@), ","@),
        if m.requirements@.len() == 0 {
            "\u{2014}"@
        } else {
            joined(requirement_texts(m.requirements@), ","@)
        },
    )
}

/// The longest of `cells`, at least `floor`.
pub open spec fn longest(cells: Seq<Seq<char>>, floor: nat) -> nat
    decreases cells.len(),
{
    if cells.len() == 0 {
        floor
    } else {
        let m = longest(cells.drop_last(), floor);
        if cells.last().len() > m {
            cells.last().len()
        } else {
            m
        }
    }
}

/// `s` padded with spaces to `w` characters.
pub open spec fn pad_right(s: Seq<char>, w: nat) -> Seq<char> {
    if s.len() >= w {
        s
    } else {
        s + Seq::new((w - s.len()) as nat, |i: int| ' ')
    }
}

pub open spec fn dashes(n: nat) -> Seq<char> {
    Seq::new(n, |i: int| '-')
}

pub open spec fn rows_of(ms: Seq<PluginManifest>) -> Seq<(Seq<char>, Seq<char>, Seq<char>, Seq<char>)> {
    ms.map_values(|m: PluginManifest| manifest_row(m))
}

/// `n + 1`, saturating at `usize::MAX`.
pub open spec fn width_of(n: nat) -> nat {
    if n < usize::MAX {
        n + 1
    } else {
        n
    }
}

pub open spec fn column(rows: Seq<(Seq<char>, Seq<char>, Seq<char>, Seq<char>)>, c: int) -> Seq<Seq<char>> {
    rows.map_values(
        |r: (Seq<char>, Seq<char>, Seq<char>, Seq<char>)|
            if c == 0 {
                r.0
            } else if c == 1 {
                r.1
            } else if c == 2 {
                r.2
            } else {
                r.3
            },
    )
}

/// The column widths of a table of `rows`: the longest cell or header
/// of each column, plus one.
pub open spec fn widths(rows: Seq<(Seq<char>, Seq<char>, Seq<char>, Seq<char>)>) -> (nat, nat, nat, nat) {
    (
        width_of(longest(column(rows, 0), 6)),
        width_of(longest(column(rows, 1), 7)),
        width_of(longest(column(rows, 2), 8)),
        width_of(longest(column(rows, 3), 8)),
    )
}

/// One line of the table.
pub open spec fn table_row(c: (Seq<char>, Seq<char>, Seq<char>, Seq<char>), w: (nat, nat, nat, nat)) -> Seq<char> {
    "  "@ + pad_right(c.0, w.0) + pad_right(c.1, w.1) + pad_right(c.2, w.2) + pad_right(c.3, w.3)
}

/// The table as lines: a count line, the header, a rule, one row per
/// manifest; every column is as wide as its longest cell or header,
/// plus one.
pub open spec fn manifest_table(ms: Seq<PluginManifest>) -> Seq<Seq<char>> {
    let rows = rows_of(ms);
    let w = widths(rows);
    seq![
        "[manifest] loaded "@ + decimal(ms.len()) + " plugin(s):"@,
        table_row(("plugin"@, "exposes"@, "contract"@, "requires"@), w),
        "  "@ + dashes((w.0 - 1) as nat) + dashes(w.1) + dashes(w.2) + dashes(w.3),
    ] + Seq::new(rows.len(), |k: int| table_row(rows[k], w))
}

/// `items` joined with `","`.
fn join_commas(items: &Vec<String>) -> (r: String)
    ensures
        r@ == joined(string_views(items@), ","@),
{
    let ghost v = string_views(items@);
    let mut out = String::new();
    let mut i: usize = 0;
    while i < items.len()
        invariant
            i <= items@.len(),
            v == string_views(items@),
            out@ == joined(v.take(i as int), ","@),
        decreases items@.len() - i,
    {
        let ghost before = out@;
        if i > 0 {
            out.append(",");
        }
        out.append(items[i].as_str());
        proof {
            let t = v.take(i + 1);
            assert(t.drop_last() =~= v.take(i as int));
            assert(t.last() == items@[i as int]@);
            if i == 0 {
                assert(before =~= Seq::<char>::empty());
                assert(out@ =~= t[0]);
            } else {
                assert(out@ =~= before + ","@ + t.last());
            }
        }
        i = i + 1;
    }
    proof {
        assert(v.take(items@.len() as int) =~= v);
    }
    out
}

fn row_cells(m: &PluginManifest) -> (r: (String, String, String, String))
    ensures
        (r.0@, r.1@, r.2@, r.3@) == manifest_row(*m),
{
    let mut name_ver = m.plugin.name.clone();
    name_ver.append("@");
    name_ver.append(m.plugin.version.as_str());
    let mut names: Vec<String> = Vec::new();
    let mut contracts: Vec<String> = Vec::new();
    let mut i: usize = 0;
    while i < m.exposes.len()
        invariant
            i <= m.exposes@.len(),
            string_views(names@) == expose_names(m.exposes@.take(i as int)),
            string_views(contracts@) == contract_names(m.exposes@.take(i as int)),
        decreases m.exposes@.len() - i,
    {
        let ghost n0 = names@;
        let ghost c0 = contracts@;
        let d = &m.exposes[i];
        proof {
            assert(string_views(n0).len() == n0.len());
        }
        names.push(d.name.clone());
        if d.contract_name.as_str().unicode_len() > 0 {
            contracts.push(d.contract_name.clone());
        }
        proof {
            let t = m.exposes@.take(i + 1);
            assert(t.drop_last() =~= m.exposes@.take(i as int));
            assert(t.last() == m.exposes@[i as int]);
            assert forall|k: int| 0 <= k < i + 1 implies #[trigger] string_views(names@)[k]
                == expose_names(t)[k] by {
                assert(string_views(names@)[k] == names@[k]@);
                assert(expose_names(t)[k] == t[k].name@);
                if k < i {
                    assert(names@[k] == n0[k]);
                    assert(string_views(n0)[k] == n0[k]@);
                    assert(string_views(n0)[k] == expose_names(m.exposes@.take(i as int))[k]);
                }
            }
            assert(string_views(names@) =~= expose_names(t));
            if d.contract_name@.len() > 0 {
                assert(string_views(contracts@) =~= string_views(c0).push(d.contract_name@));
            } else {
                assert(contracts@ == c0);
            }
        }
        i = i + 1;
    }
    proof {
        assert(m.exposes@.take(m.exposes@.len() as int) =~= m.exposes@);
    }
    let exposes = join_commas(&names);
    let contract_text = join_commas(&contracts);
    let needs = if m.requirements.len() == 0 {
        String::from_str("\u{2014}")
    } else {
        let mut texts: Vec<String> = Vec::new();
        let mut j: usize = 0;
        while j < m.requirements.len()
            invariant
                j <= m.requirements@.len(),
                string_views(texts@) == requirement_texts(m.requirements@.take(j as int)),
            decreases m.requirements@.len() - j,
        {
            let r = &m.requirements[j];
            let mut t = r.name.clone();
            t.append("\u{2192}");
            t.append(r.contract.as_str());
            let ghost t0 = texts@;
            proof {
                assert(string_views(t0).len() == t0.len());
            }
            texts.push(t);
            proof {
                assert forall|k: int| 0 <= k < j + 1 implies #[trigger] string_views(texts@)[k]
                    == requirement_texts(m.requirements@.take(j + 1))[k] by {
                    assert(string_views(texts@)[k] == texts@[k]@);
                    assert(requirement_texts(m.requirements@.take(j + 1))[k] == m.requirements@[k].name@ + "\u{2192}"@ + m.requirements@[k].contract@);
                    if k < j {
                        assert(texts@[k] == t0[k]);
                        assert(string_views(t0)[k] == t0[k]@);
                        assert(string_views(t0)[k] == requirement_texts(m.requirements@.take(j as int))[k]);
                    }
                }
                assert(string_views(texts@) =~= requirement_texts(m.requirements@.take(j + 1)));
            }
            j = j + 1;
        }
        proof {
            assert(m.requirements@.take(m.requirements@.len() as int) =~= m.requirements@);
        }
        join_commas(&texts)
    };
    (name_ver, exposes, contract_text, needs)
}

/// Append `s` padded with spaces to `w` characters.
fn push_padded_right(out: &mut String, s: &str, w: usize)
    ensures
        final(out)@ == old(out)@ + pad_right(s@, w as nat),
{
    let ghost o = out@;
    out.append(s);
    let n = s.unicode_len();
    if n < w {
        let mut k: usize = n;
        while k < w
            invariant
                n <= k <= w,
                n == s@.len(),
                out@ == o + s@ + Seq::new((k - n) as nat, |i: int| ' '),
            decreases w - k,
        {
            out.append(" ");
            proof {
                reveal_strlit(" ");
                assert(out@ =~= o + s@ + Seq::new((k + 1 - n) as nat, |i: int| ' '));
            }
            k = k + 1;
        }
    } else {
        proof {
            assert(out@ =~= o + pad_right(s@, w as nat));
        }
    }
}

fn push_dashes(out: &mut String, n: usize)
    ensures
        final(out)@ == old(out)@ + dashes(n as nat),
{
    let ghost o = out@;
    let mut k: usize = 0;
    while k < n
        invariant
            k <= n,
            out@ == o + dashes(k as nat),
        decreases n - k,
    {
        out.append("-");
        proof {
            reveal_strlit("-");
            assert(out@ =~= o + dashes((k + 1) as nat));
        }
        k = k + 1;
    }
}

fn table_line(c: (&str, &str, &str, &str), w: (usize, usize, usize, usize)) -> (r: String)
    ensures
        r@ == "  "@ + pad_right(c.0@, w.0 as nat) + pad_right(c.1@, w.1 as nat) + pad_right(
            c.2@,
            w.2 as nat,
        ) + pad_right(c.3@, w.3 as nat),
{
    let mut s = String::from_str("  ");
    push_padded_right(&mut s, c.0, w.0);
    push_padded_right(&mut s, c.1, w.1);
    push_padded_right(&mut s, c.2, w.2);
    push_padded_right(&mut s, c.3, w.3);
    s
}


pub open spec fn row_view(r: (String, String, String, String)) -> (Seq<char>, Seq<char>, Seq<char>, Seq<char>) {
    (r.0@, r.1@, r.2@, r.3@)
}

pub open spec fn row_views(rows: Seq<(String, String, String, String)>) -> Seq<(Seq<char>, Seq<char>, Seq<char>, Seq<char>)> {
    rows.map_values(|r: (String, String, String, String)| row_view(r))
}

fn cell_of(r: &(String, String, String, String), c: usize) -> (s: &str)
    ensures
        s@ == (if c == 0 {
            r.0@
        } else if c == 1 {
            r.1@
        } else if c == 2 {
            r.2@
        } else {
            r.3@
        }),
{
    if c == 0 {
        r.0.as_str()
    } else if c == 1 {
        r.1.as_str()
    } else if c == 2 {
        r.2.as_str()
    } else {
        r.3.as_str()
    }
}

fn col_width(rows: &Vec<(String, String, String, String)>, c: usize, floor: usize) -> (w: usize)
    ensures
        w == width_of(longest(column(row_views(rows@), c as int), floor as nat)),
{
    let ghost col = column(row_views(rows@), c as int);
    let mut m: usize = floor;
    let mut i: usize = 0;
    while i < rows.len()
        invariant
            i <= rows@.len(),
            col == column(row_views(rows@), c as int),
            m == longest(col.take(i as int), floor as nat),
        decreases rows@.len() - i,
    {
        let n = cell_of(&rows[i], c).unicode_len();
        proof {
            assert(col.take(i + 1).drop_last() =~= col.take(i as int));
            assert(col.take(i + 1).last() == col[i as int]);
            assert(col[i as int] == cell_of_spec(rows@[i as int], c));
        }
        if n > m {
            m = n;
        }
        i = i + 1;
    }
    proof {
        assert(col.take(rows@.len() as int) =~= col);
    }
    if m < usize::MAX {
        m + 1
    } else {
        m
    }
}

pub open spec fn cell_of_spec(r: (String, String, String, String), c: usize) -> Seq<char> {
    if c == 0 {
        r.0@
    } else if c == 1 {
        r.1@
    } else if c == 2 {
        r.2@
    } else {
        r.3@
    }
}

/// The lines of the boot-time manifest table.
pub fn manifest_lines(manifests: &[PluginManifest]) -> (r: Vec<String>)
    ensures
        string_views(r@) == manifest_table(manifests@),
{
    let mut rows: Vec<(String, String, String, String)> = Vec::new();
    let mut i: usize = 0;
    while i < manifests.len()
        invariant
            i <= manifests@.len(),
            row_views(rows@) == rows_of(manifests@).take(i as int),
        decreases manifests@.len() - i,
    {
        let ghost r0 = rows@;
        proof {
            assert(row_views(r0).len() == r0.len());
        }
        let cells = row_cells(&manifests[i]);
        rows.push(cells);
        proof {
            assert(rows_of(manifests@).take(i + 1)[i as int] == manifest_row(manifests@[i as int]));
            assert forall|k: int| 0 <= k < i + 1 implies #[trigger] row_views(rows@)[k] == rows_of(manifests@).take(i + 1)[k] by {
                assert(row_views(rows@)[k] == row_view(rows@[k]));
                if k < i {
                    assert(rows@[k] == r0[k]);
                    assert(row_views(r0)[k] == row_view(r0[k]));
                    assert(row_views(r0)[k] == rows_of(manifests@).take(i as int)[k]);
                }
            }
            assert(row_views(rows@) =~= rows_of(manifests@).take(i + 1));
        }
        i = i + 1;
    }
    proof {
        assert(rows_of(manifests@).take(manifests@.len() as int) =~= rows_of(manifests@));
    }
    let ghost rv = row_views(rows@);
    let wp = col_width(&rows, 0, 6);
    let we = col_width(&rows, 1, 7);
    let wc = col_width(&rows, 2, 8);
    let wr = col_width(&rows, 3, 8);
    let ghost w = widths(rv);
    proof {
        assert(w == (wp as nat, we as nat, wc as nat, wr as nat));
    }
    let mut out: Vec<String> = Vec::new();
    let mut first = String::from_str("[manifest] loaded ");
    push_decimal(&mut first, manifests.len() as u64);
    first.append(" plugin(s):");
    out.push(first);
    out.push(table_line(("plugin", "exposes", "contract", "requires"), (wp, we, wc, wr)));
    let mut rule = String::from_str("  ");
    push_dashes(&mut rule, wp - 1);
    push_dashes(&mut rule, we);
    push_dashes(&mut rule, wc);
    push_dashes(&mut rule, wr);
    out.push(rule);
    let ghost head = string_views(out@);
    let mut k: usize = 0;
    while k < rows.len()
        invariant
            k <= rows@.len(),
            rv == row_views(rows@),
            w == (wp as nat, we as nat, wc as nat, wr as nat),
            out@.len() == 3 + k,
            string_views(out@) == head + Seq::new(k as nat, |j: int| table_row(rv[j], w)),
            head.len() == 3,
        decreases rows@.len() - k,
    {
        let ghost o0 = out@;
        let line = table_line(
            (rows[k].0.as_str(), rows[k].1.as_str(), rows[k].2.as_str(), rows[k].3.as_str()),
            (wp, we, wc, wr),
        );
        out.push(line);
        proof {
            assert(rv[k as int] == row_view(rows@[k as int]));
            assert forall|j: int| 0 <= j < 3 + k + 1 implies #[trigger] string_views(out@)[j] == (head
                + Seq::new((k + 1) as nat, |j: int| table_row(rv[j], w)))[j] by {
                if j < 3 + k {
                    assert(out@[j] == o0[j]);
                    assert(string_views(o0)[j] == o0[j]@);
                }
            }
            assert(string_views(out@) =~= head + Seq::new((k + 1) as nat, |j: int| table_row(rv[j], w)));
        }
        k = k + 1;
    }
    proof {
        reveal_strlit("plugin");
        reveal_strlit("exposes");
        reveal_strlit("contract");
        reveal_strlit("requires");
        assert(string_views(out@) =~= manifest_table(manifests@));
    }
    out
}


/// The slots minted for one plugin, in mint order.
pub struct MintedPlugin {
    pub plugin: PluginId,
    pub slots: Vec<SlotId>,
}

/// The per-call ceiling a plugin's capabilities get: the manifest's
/// timeout hint, or 5000 ms when it gives none.
pub open spec fn plugin_timeout(m: PluginManifest) -> u32 {
    match m.resources.timeout_ms {
        Some(t) => t,
        None => 5000,
    }
}

/// `c` is the capability minted for declaration `d` with handler `h`
/// and ceiling `timeout`: of the declared kind, name and contract, with
/// every operation right.
pub open spec fn minted_for<H>(c: Capability<H>, d: CapabilityDecl, h: H, timeout: u32) -> bool {
    &&& c.kind == d.kind
    &&& c.handler == h
    &&& c.meta.name@ == d.name@
    &&& c.meta.contract_name@ == d.contract_name@
    &&& c.budget.timeout() == timeout
    &&& c.operations.bits == 15
}

/// Mint every capability `manifest` exposes into `space`, the `i`-th
/// with `handlers[i]`, each on a fresh budget without quota whose
/// ceiling is `plugin_timeout(manifest)`, sync or streaming as
/// declared, into the next free slots in declaration order. A plugin
/// that exposes nothing mints nothing and is not reported.
pub fn mint_plugin<H>(
    space: &mut CapabilitySpace<H>,
    factory: &mut CapabilityFactory,
    manifest: &PluginManifest,
    handlers: Vec<H>,
) -> (r: Option<MintedPlugin>)
    requires
        old(space).wf(),
        handlers@.len() == manifest.exposes@.len(),
        old(space).next_slot() + manifest.exposes@.len() <= u64::MAX,
    ensures
        final(space).wf(),
        r is None <==> manifest.exposes@.len() == 0,
        r is None ==> *final(space) == *old(space),
        final(space).next_slot() == old(space).next_slot() + manifest.exposes@.len(),
        old(space).allocated() ==> final(space).allocated(),
        r matches Some(p) ==> p.plugin == manifest.plugin && p.slots@.len() == manifest.exposes@.len() && forall|i: int|
            0 <= i < p.slots@.len() ==> {
                let k = (old(space).next_slot() + i + 1) as u64;
                &&& (#[trigger] p.slots@[i])@ == k
                &&& final(space).slots().contains_key(k)
                &&& minted_for(final(space).slots()[k].cap, manifest.exposes@[i], handlers@[i], plugin_timeout(*manifest))
            },
{
    let n = manifest.exposes.len();
    if n == 0 {
        return None;
    }
    let timeout: u32 = match manifest.resources.timeout_ms {
        Some(t) => t,
        None => 5000,
    };
    let ghost h0 = handlers@;
    let ghost base = space.next_slot();
    let mut handlers = handlers;
    let mut slots: Vec<SlotId> = Vec::new();
    let mut i: usize = 0;
    while i < n
        invariant
            n == manifest.exposes@.len(),
            h0.len() == n,
            i <= n,
            space.wf(),
            base + n <= u64::MAX,
            space.next_slot() == base + i,
            old(space).allocated() ==> space.allocated(),
            handlers@ == h0.subrange(i as int, n as int),
            timeout == plugin_timeout(*manifest),
            slots@.len() == i,
            forall|j: int|
                0 <= j < i ==> {
                    let k = (base + j + 1) as u64;
                    &&& (#[trigger] slots@[j])@ == k
                    &&& space.slots().contains_key(k)
                    &&& minted_for(space.slots()[k].cap, manifest.exposes@[j], h0[j], timeout)
                },
        decreases n - i,
    {
        let handler = handlers.remove(0);
        proof {
            assert(handler == h0[i as int]);
            assert(handlers@ =~= h0.subrange(i + 1, n as int));
        }
        let ghost before = space.slots();
        let budget = space.new_budget(timeout, QuotaSpec::unlimited());
        let decl = &manifest.exposes[i];
        let cap = match decl.kind {
            CapKind::Sync => factory.mint_sync(decl, &manifest.plugin, budget, handler, space.ledger_ref()),
            CapKind::Stream => factory.mint_stream(decl, &manifest.plugin, budget, handler, space.ledger_ref()),
        };
        let slot = space.allocate();
        space.install(slot, cap);
        let ghost sb = slots@;
        slots.push(slot);
        let ghost i0 = i;
        i = i + 1;
        proof {
            assert forall|j: int| 0 <= j < i implies {
                let k = (base + j + 1) as u64;
                &&& (#[trigger] slots@[j])@ == k
                &&& space.slots().contains_key(k)
                &&& minted_for(space.slots()[k].cap, manifest.exposes@[j], h0[j], timeout)
            } by {
                let k = (base + j + 1) as u64;
                if j < i0 {
                    assert(sb[j] == slots@[j]);
                    assert(before.contains_key(k));
                    assert(k != slot@);
                    assert(space.slots()[k].cap == before[k].cap);
                }
            }
        }
    }
    Some(MintedPlugin { plugin: manifest.plugin.clone(), slots })
}

/// Sum of the revoked-slot counts of a teardown report.
pub open spec fn revoked_total(report: Seq<(PluginId, usize)>) -> nat
    decreases report.len(),
{
    if report.len() == 0 {
        0
    } else {
        revoked_total(report.drop_last()) + report.last().1 as nat
    }
}

/// `after` keeps only slots of `before`, each with the entry it had.
pub open spec fn only_removed<H>(before: Map<u64, Entry<H>>, after: Map<u64, Entry<H>>) -> bool {
    forall|k: u64|
        #[trigger] after.contains_key(k) ==> before.contains_key(k) && after[k] == before[k]
}

/// The stages of a teardown: `stages[q + 1]` is what the teardown of
/// the `q`-th plugin it handled, `minted[n - 1 - q]`, left of
/// `stages[q]`; it removed `report[q].1` slots, and none of that
/// plugin's slots is left.
pub open spec fn teardown_stages<H>(
    minted: Seq<MintedPlugin>,
    report: Seq<(PluginId, usize)>,
    stages: Seq<Map<u64, Entry<H>>>,
) -> bool {
    &&& stages.len() == report.len() + 1
    &&& report.len() <= minted.len()
    &&& forall|q: int| 0 <= q < report.len() ==> #[trigger] stage_step(minted, report, stages, q)
}

/// Stage `q` of a teardown (see `teardown_stages`).
pub open spec fn stage_step<H>(
    minted: Seq<MintedPlugin>,
    report: Seq<(PluginId, usize)>,
    stages: Seq<Map<u64, Entry<H>>>,
    q: int,
) -> bool {
    let p = minted[minted.len() - 1 - q];
    &&& only_removed(stages[q], stages[q + 1])
    &&& stages[q + 1].len() + report[q].1 == stages[q].len()
    &&& forall|i: int| 0 <= i < p.slots@.len() ==> !stages[q + 1].contains_key((#[trigger] p.slots@[i])@)
}

/// `events` extends `e0` and holds past it, at increasing positions
/// `marks`, one `PluginDeactivated` per report entry, in report order.
pub open spec fn deactivations_marked(
    e0: Seq<GraphEvent>,
    events: Seq<GraphEvent>,
    report: Seq<(PluginId, usize)>,
    marks: Seq<int>,
) -> bool {
    &&& e0.len() <= events.len()
    &&& events.take(e0.len() as int) == e0
    &&& marks.len() == report.len()
    &&& forall|q: int|
        0 <= q < marks.len() ==> e0.len() <= #[trigger] marks[q] < events.len() && events[marks[q]]
            == GraphEvent::PluginDeactivated { plugin: report[q].0 }
    &&& forall|a: int, b: int| 0 <= a < b < marks.len() ==> #[trigger] marks[a] < #[trigger] marks[b]
}

/// Tear the runtime plugins down in reverse mint order: for each
/// plugin, publish `PluginDeactivated`, then revoke the derivation
/// subtree of each of its slots. Consumers go before their providers.
/// Returns, in teardown order, each plugin with the number of slots
/// its teardown removed. Afterwards no minted slot is occupied, and
/// the space holds nothing it did not hold before.
pub fn ruin_runtime_plugins<H>(cspace: &mut CapabilitySpace<H>, minted: &Vec<MintedPlugin>) -> (r: Vec<
    (PluginId, usize),
>)
    requires
        old(cspace).wf(),
    ensures
        final(cspace).wf(),
        final(cspace).ledger() == old(cspace).ledger(),
        r@.len() == minted@.len(),
        forall|j: int| 0 <= j < r@.len() ==> (#[trigger] r@[j]).0 == minted@[minted@.len() - 1 - j].plugin,
        forall|j: int, i: int|
            0 <= j < minted@.len() && 0 <= i < minted@[j].slots@.len()
                ==> !final(cspace).slots().contains_key((#[trigger] minted@[j].slots@[i])@),
        only_removed(old(cspace).slots(), final(cspace).slots()),
        final(cspace).slots().len() + revoked_total(r@) == old(cspace).slots().len(),
        exists|stages: Seq<Map<u64, Entry<H>>>|
            #[trigger] teardown_stages(minted@, r@, stages) && stages[0] == old(cspace).slots() && stages.last()
                == final(cspace).slots(),
        exists|marks: Seq<int>| #[trigger] deactivations_marked(old(cspace).events(), final(cspace).events(), r@, marks),
{
    let n0 = cspace.len();
    let ghost m0 = cspace.slots();
    let ghost e0 = cspace.events();
    let ghost mut stages: Seq<Map<u64, Entry<H>>> = seq![m0];
    let ghost mut marks: Seq<int> = Seq::empty();
    proof {
        assert(e0.take(e0.len() as int) =~= e0);
    }
    let mut r: Vec<(PluginId, usize)> = Vec::new();
    let mut j: usize = minted.len();
    while j > 0
        invariant
            j <= minted@.len(),
            cspace.wf(),
            cspace.ledger() == old(cspace).ledger(),
            m0 == old(cspace).slots(),
            n0 == m0.len(),
            r@.len() == minted@.len() - j,
            forall|q: int| 0 <= q < r@.len() ==> (#[trigger] r@[q]).0 == minted@[minted@.len() - 1 - q].plugin,
            forall|q: int, i: int|
                j <= q < minted@.len() && 0 <= i < minted@[q].slots@.len() ==> !cspace.slots().contains_key(
                    (#[trigger] minted@[q].slots@[i])@,
                ),
            only_removed(m0, cspace.slots()),
            cspace.slots().len() + revoked_total(r@) == m0.len(),
            e0 == old(cspace).events(),
            teardown_stages(minted@, r@, stages),
            stages[0] == m0,
            stages.last() == cspace.slots(),
            deactivations_marked(e0, cspace.events(), r@, marks),
        decreases j,
    {
        j = j - 1;
        let entry = &minted[j];
        let ghost ev_before = cspace.events();
        cspace.publish_event(GraphEvent::PluginDeactivated { plugin: entry.plugin.clone() });
        let ghost mark = ev_before.len() as int;
        let ghost ev_start = cspace.events();
        proof {
            assert(ev_start.take(e0.len() as int) =~= e0);
        }
        let ghost start = cspace.slots();
        let mut total: usize = 0;
        let mut i: usize = 0;
        while i < entry.slots.len()
            invariant
                j < minted@.len(),
                entry == minted@[j as int],
                i <= entry.slots@.len(),
                cspace.wf(),
                cspace.ledger() == old(cspace).ledger(),
                n0 == m0.len(),
                only_removed(m0, start),
                only_removed(start, cspace.slots()),
                cspace.slots().len() + total == start.len(),
                start.len() + revoked_total(r@) == m0.len(),
                forall|q: int, k: int|
                    j < q < minted@.len() && 0 <= k < minted@[q].slots@.len() ==> !start.contains_key(
                        (#[trigger] minted@[q].slots@[k])@,
                    ),
                forall|k: int| 0 <= k < i ==> !cspace.slots().contains_key((#[trigger] entry.slots@[k])@),
                ev_start.len() <= cspace.events().len(),
                cspace.events().take(ev_start.len() as int) == ev_start,
            decreases entry.slots@.len() - i,
        {
            let ghost before = cspace.slots();
            let ghost before_ev = cspace.events();
            proof {
                cspace.lemma_len();
            }
            let n = cspace.revoke_tree(entry.slots[i]);
            proof {
                let order = choose|order: Seq<u64>|
                    {
                        &&& #[trigger] subtree_order(before, entry.slots@[i as int]@, order)
                        &&& n == order.len()
                        &&& cspace.slots() == before.remove_keys(order.to_set())
                        &&& severed(cspace.slots(), entry.slots@[i as int]@, order)
                    };
                assert(cspace.slots() == before.remove_keys(order.to_set()));
                assert(severed(cspace.slots(), entry.slots@[i as int]@, order));
                assert forall|k: u64| #[trigger] cspace.slots().contains_key(k) implies before.contains_key(k)
                    && cspace.slots()[k] == before[k] by {}
            }
            proof {
                assert(cspace.events().take(ev_start.len() as int) =~= ev_start) by {
                    assert(cspace.events().take(before_ev.len() as int) == before_ev);
                    assert(before_ev.take(ev_start.len() as int) == ev_start);
                }
            }
            total = total + n;
            i = i + 1;
        }
        let ghost r_old = r@;
        r.push((entry.plugin.clone(), total));
        proof {
            assert(r@.drop_last() =~= r_old);
            let stages0 = stages;
            let marks0 = marks;
            stages = stages.push(cspace.slots());
            marks = marks.push(mark);
            let ev = cspace.events();
            assert(ev[mark] == ev_start[mark]);
            assert(ev.take(e0.len() as int) =~= e0) by {
                assert(ev_start.take(e0.len() as int) =~= e0);
            }
            assert forall|q: int| 0 <= q < r@.len() implies #[trigger] stage_step(minted@, r@, stages, q) by {
                if q < r_old.len() {
                    assert(r_old[q] == r@[q]);
                    assert(stages[q] == stages0[q] && stages[q + 1] == stages0[q + 1]);
                    assert(stage_step(minted@, r_old, stages0, q));
                } else {
                    assert(q == minted@.len() - 1 - j);
                    assert(stages[q] == start);
                    assert(stages[q + 1] == cspace.slots());
                    assert(only_removed(start, cspace.slots()));
                    assert(r@[q].1 == total);
                    assert forall|i: int| 0 <= i < entry.slots@.len() implies !cspace.slots().contains_key(
                        (#[trigger] entry.slots@[i])@,
                    ) by {}
                }
            }
            assert forall|q: int| 0 <= q < marks.len() implies e0.len() <= #[trigger] marks[q] < ev.len() && ev[marks[q]]
                == GraphEvent::PluginDeactivated { plugin: r@[q].0 } by {
                if q < marks0.len() {
                    assert(marks[q] == marks0[q]);
                    assert(r@[q] == r_old[q]);
                    assert(ev_before[marks0[q]] == ev[marks0[q]]) by {
                        assert(ev_start[marks0[q]] == ev_before[marks0[q]]);
                    }
                }
            }
            assert(deactivations_marked(e0, ev, r@, marks));
            assert(stages.len() == r@.len() + 1);
            assert(teardown_stages(minted@, r@, stages));
            assert forall|k: u64| #[trigger] cspace.slots().contains_key(k) implies m0.contains_key(k)
                && cspace.slots()[k] == m0[k] by {
                assert(start.contains_key(k));
            }
            assert forall|q: int, k: int|
                j <= q < minted@.len() && 0 <= k < minted@[q].slots@.len() implies !cspace.slots().contains_key(
                    (#[trigger] minted@[q].slots@[k])@,
                ) by {
                if q == j {
                    assert(minted@[q].slots@[k] == entry.slots@[k]);
                } else {
                    if cspace.slots().contains_key(minted@[q].slots@[k]@) {
                        assert(start.contains_key(minted@[q].slots@[k]@));
                    }
                }
            }
        }
    }
    r
}

/// Names of the plugins that boot mints, provides and activates.
pub open spec fn runtime_plugin_names() -> Seq<Seq<char>> {
    seq![
        "echo"@,
        "reverse"@,
        "slow"@,
        "sandbox"@,
        "echo_stream"@,
        "generator"@,
        "echo-chain"@,
        "database"@,
        "embedder"@,
        "http"@,
    ]
}

/// The runtime plugin names, in boot order.
pub fn runtime_plugins() -> (r: Vec<&'static str>)
    ensures
        r@.map_values(|s: &str| s@) == runtime_plugin_names(),
{
    let r = vec![
        "echo",
        "reverse",
        "slow",
        "sandbox",
        "echo_stream",
        "generator",
        "echo-chain",
        "database",
        "embedder",
        "http",
    ];
    proof {
        assert(r@.map_values(|s: &str| s@) =~= runtime_plugin_names());
    }
    r
}

/// Some manifest of `ms` publishes the plugin named `n`.
pub open spec fn published(ms: Seq<PluginManifest>, n: Seq<char>) -> bool {
    exists|i: int| 0 <= i < ms.len() && (#[trigger] ms[i]).plugin.name@ == n
}

/// The names of `names` that no manifest of `ms` publishes, in order.
pub open spec fn unpublished(names: Seq<Seq<char>>, ms: Seq<PluginManifest>) -> Seq<Seq<char>>
    decreases names.len(),
{
    if names.len() == 0 {
        Seq::empty()
    } else {
        let rest = unpublished(names.drop_last(), ms);
        if published(ms, names.last()) {
            rest
        } else {
            rest.push(names.last())
        }
    }
}

/// Whether some manifest publishes the plugin named `name`.
fn is_published(manifests: &[PluginManifest], name: &str) -> (r: bool)
    ensures
        r == published(manifests@, name@),
{
    let mut i: usize = 0;
    while i < manifests.len()
        invariant
            i <= manifests@.len(),
            forall|j: int| 0 <= j < i ==> (#[trigger] manifests@[j]).plugin.name@ != name@,
        decreases manifests@.len() - i,
    {
        if str_eq(manifests[i].plugin.name.as_str(), name) {
            proof {
                assert(manifests@[i as int].plugin.name@ == name@);
            }
            return true;
        }
        i = i + 1;
    }
    false
}

/// The runtime plugins that no loaded manifest publishes, in boot
/// order.
pub fn missing_runtime_plugins(manifests: &[PluginManifest]) -> (r: Vec<&'static str>)
    ensures
        r@.map_values(|s: &str| s@) == unpublished(runtime_plugin_names(), manifests@),
{
    let names = runtime_plugins();
    let mut r: Vec<&'static str> = Vec::new();
    let mut i: usize = 0;
    while i < names.len()
        invariant
            i <= names@.len(),
            names@.map_values(|s: &str| s@) == runtime_plugin_names(),
            r@.map_values(|s: &str| s@) == unpublished(runtime_plugin_names().take(i as int), manifests@),
        decreases names@.len() - i,
    {
        let ghost before = r@;
        let name = names[i];
        let found = is_published(manifests, name);
        if !found {
            r.push(name);
        }
        proof {
            let t = runtime_plugin_names().take(i + 1);
            assert(t.drop_last() =~= runtime_plugin_names().take(i as int));
            assert(t.last() == name@);
            if found {
                assert(r@.map_values(|s: &str| s@) =~= before.map_values(|s: &str| s@));
            } else {
                assert(r@.map_values(|s: &str| s@) =~= before.map_values(|s: &str| s@).push(name@));
            }
        }
        i = i + 1;
    }
    proof {
        assert(runtime_plugin_names().take(10) =~= runtime_plugin_names());
    }
    r
}

/// `names` as a debug-printed list: each in double quotes, separated
/// by `", "`, in square brackets.
pub open spec fn quoted_list(names: Seq<Seq<char>>) -> Seq<char> {
    "["@ + joined(names.map_values(|n: Seq<char>| "\""@ + n + "\""@), ", "@) + "]"@
}

/// The refusal of a boot whose runtime plugins lack manifests.
pub open spec fn unpublished_message(missing: Seq<Seq<char>>) -> Seq<char> {
    "RUNTIME_PLUGINS lists "@ + quoted_list(missing)
        + " but no loaded manifest publishes them; either add the plugin to `load_manifests()` or remove it from RUNTIME_PLUGINS"@
}

fn quote_list(names: &Vec<&'static str>) -> (r: String)
    ensures
        r@ == quoted_list(names@.map_values(|s: &str| s@)),
{
    let ghost views = names@.map_values(|s: &str| s@);
    let ghost q = |n: Seq<char>| "\""@ + n + "\""@;
    let mut out = String::new();
    let mut i: usize = 0;
    while i < names.len()
        invariant
            i <= names@.len(),
            views == names@.map_values(|s: &str| s@),
            q == (|n: Seq<char>| "\""@ + n + "\""@),
            out@ == joined(views.map_values(q).take(i as int), ", "@),
        decreases names@.len() - i,
    {
        let ghost before = out@;
        if i > 0 {
            out.append(", ");
        }
        out.append("\"");
        out.append(names[i]);
        out.append("\"");
        proof {
            let t = views.map_values(q).take(i + 1);
            assert(t.drop_last() =~= views.map_values(q).take(i as int));
            assert(t.last() == q(names@[i as int]@));
            if i == 0 {
                assert(before =~= Seq::<char>::empty());
                assert(out@ =~= t[0]);
            } else {
                assert(out@ =~= before + ", "@ + t.last());
            }
        }
        i = i + 1;
    }
    proof {
        assert(views.map_values(q).take(names@.len() as int) =~= views.map_values(q));
    }
    let mut r = String::from_str("[");
    r.append(out.as_str());
    r.append("]");
    r
}

/// The boot's configuration check: every runtime plugin must be
/// published by a loaded manifest. Refused, naming the missing ones,
/// otherwise.
pub fn check_runtime_manifests(manifests: &[PluginManifest]) -> (r: Result<(), String>)
    ensures
        r is Ok <==> unpublished(runtime_plugin_names(), manifests@).len() == 0,
        r matches Err(e) ==> e@ == unpublished_message(unpublished(runtime_plugin_names(), manifests@)),
{
    let missing = missing_runtime_plugins(manifests);
    if missing.len() == 0 {
        return Ok(());
    }
    let mut e = String::from_str("RUNTIME_PLUGINS lists ");
    let list = quote_list(&missing);
    e.append(list.as_str());
    e.append(" but no loaded manifest publishes them; either add the plugin to `load_manifests()` or remove it from RUNTIME_PLUGINS");
    Err(e)
}
} // verus!
