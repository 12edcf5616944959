//! The contribution grid renderer: a calendar heatmap built as a
//! freestanding SVG document through the `svg` crate.
//!
//! Each daily record becomes one 10x10 cell with rounded corners on a
//! 15-unit grid, seven rows deep (one column per week, one row per
//! weekday).  Every cell starts in the empty color and snaps to its
//! count's band color after a delay of a fifth of a second per position.
//!
//! The `svg` crate's builder types are opaque to the verifier; the spec
//! functions `doc_attrs`, `doc_groups`, `group_cells`, `rect_attrs`,
//! `rect_animates` and `animate_attrs` name what a value built through
//! the wrappers below holds, and `doc_markup` names the serialized text.
//! The crate's serializer writes an element's attributes sorted by name
//! and its children in order, so the text is a function of that model.

use vstd::prelude::*;

use crate::stats::Stats;
use crate::text::{dec_nat, digit_char, digit_string, u64_to_string};

verus! {

#[verifier::external_type_specification]
#[verifier::external_body]
pub struct ExSvgDocument(svg::node::element::SVG);

#[verifier::external_type_specification]
#[verifier::external_body]
pub struct ExSvgGroup(svg::node::element::Group);

#[verifier::external_type_specification]
#[verifier::external_body]
pub struct ExSvgRectangle(svg::node::element::Rectangle);

#[verifier::external_type_specification]
#[verifier::external_body]
pub struct ExSvgAnimate(svg::node::element::Animate);

/// The attributes an `animate` element built here holds.
pub uninterp spec fn animate_attrs(a: svg::node::element::Animate) -> Map<Seq<char>, Seq<char>>;

/// The attributes a `rect` element built here holds.
pub uninterp spec fn rect_attrs(r: svg::node::element::Rectangle) -> Map<Seq<char>, Seq<char>>;

/// The `animate` children a `rect` element built here holds, in order,
/// each as its attributes.
pub uninterp spec fn rect_animates(r: svg::node::element::Rectangle) -> Seq<
    Map<Seq<char>, Seq<char>>,
>;

/// The `rect` children a `g` element built here holds, in order, each as
/// its attributes and its `animate` children.
pub uninterp spec fn group_cells(g: svg::node::element::Group) -> Seq<
    (Map<Seq<char>, Seq<char>>, Seq<Map<Seq<char>, Seq<char>>>),
>;

/// The attributes of a document built here.
pub uninterp spec fn doc_attrs(d: svg::node::element::SVG) -> Map<Seq<char>, Seq<char>>;

/// The `g` children of a document built here, in order, each as its
/// cells.
pub uninterp spec fn doc_groups(d: svg::node::element::SVG) -> Seq<
    Seq<(Map<Seq<char>, Seq<char>>, Seq<Map<Seq<char>, Seq<char>>>)>,
>;

/// The serialized text of a document that holds the given attributes and
/// groups of cells: attributes sorted by name, children in order.
pub uninterp spec fn doc_markup(
    attrs: Map<Seq<char>, Seq<char>>,
    groups: Seq<Seq<(Map<Seq<char>, Seq<char>>, Seq<Map<Seq<char>, Seq<char>>>)>>,
) -> Seq<char>;

/// An element with no attributes yet.
pub open spec fn no_attrs() -> Map<Seq<char>, Seq<char>> {
    Map::empty()
}

/// A `rect` with no `animate` children yet.
pub open spec fn no_animates() -> Seq<Map<Seq<char>, Seq<char>>> {
    Seq::empty()
}

/// A `g` with no cells yet.
pub open spec fn no_cells() -> Seq<(Map<Seq<char>, Seq<char>>, Seq<Map<Seq<char>, Seq<char>>>)> {
    Seq::empty()
}

/// A document with no `g` children yet.
pub open spec fn no_groups() -> Seq<
    Seq<(Map<Seq<char>, Seq<char>>, Seq<Map<Seq<char>, Seq<char>>>)>,
> {
    Seq::empty()
}

/// Relies on svg::node::element::Animate::new: a fresh `animate` element
/// with no attributes.
#[verifier::external_body]
fn svg_animate_new() -> (a: svg::node::element::Animate)
    ensures
        animate_attrs(a) == no_attrs(),
{
    svg::node::element::Animate::new()
}

/// Relies on svg::node::element::Animate::set: inserts the attribute
/// into the element's attribute map.
#[verifier::external_body]
fn svg_animate_set(a: svg::node::element::Animate, name: &str, value: &str) -> (r:
    svg::node::element::Animate)
    ensures
        animate_attrs(r) == animate_attrs(a).insert(name@, value@),
{
    a.set(name, value)
}

/// Relies on svg::node::element::Rectangle::new: a fresh `rect` element
/// with no attributes and no children.
#[verifier::external_body]
fn svg_rect_new() -> (r: svg::node::element::Rectangle)
    ensures
        rect_attrs(r) == no_attrs(),
        rect_animates(r) == no_animates(),
{
    svg::node::element::Rectangle::new()
}

/// Relies on svg::node::element::Rectangle::set: inserts the attribute
/// into the element's attribute map and leaves its children alone.
#[verifier::external_body]
fn svg_rect_set(r: svg::node::element::Rectangle, name: &str, value: &str) -> (r2:
    svg::node::element::Rectangle)
    ensures
        rect_attrs(r2) == rect_attrs(r).insert(name@, value@),
        rect_animates(r2) == rect_animates(r),
{
    r.set(name, value)
}

/// Relies on svg::node::element::Rectangle::add: appends the child and
/// leaves the attributes alone.
#[verifier::external_body]
fn svg_rect_add_animate(
    r: svg::node::element::Rectangle,
    a: svg::node::element::Animate,
) -> (r2: svg::node::element::Rectangle)
    ensures
        rect_attrs(r2) == rect_attrs(r),
        rect_animates(r2) == rect_animates(r).push(animate_attrs(a)),
{
    r.add(a)
}

/// Relies on svg::node::element::Group::new: a fresh `g` element with no
/// children.
#[verifier::external_body]
fn svg_group_new() -> (g: svg::node::element::Group)
    ensures
        group_cells(g) == no_cells(),
{
    svg::node::element::Group::new()
}

/// Relies on svg::node::element::Group::add: appends the child.
#[verifier::external_body]
fn svg_group_add_rect(
    g: svg::node::element::Group,
    r: svg::node::element::Rectangle,
) -> (g2: svg::node::element::Group)
    ensures
        group_cells(g2) == group_cells(g).push((rect_attrs(r), rect_animates(r))),
{
    g.add(r)
}

/// Relies on svg::node::element::SVG::new: a fresh `svg` element whose
/// only attribute is the `xmlns` namespace the crate assigns, with no
/// children.
#[verifier::external_body]
fn svg_document_new() -> (d: svg::node::element::SVG)
    ensures
        doc_attrs(d) == no_attrs().insert("xmlns"@, "http://www.w3.org/2000/svg"@),
        doc_groups(d) == no_groups(),
{
    svg::Document::new()
}

/// Relies on svg::node::element::SVG::set: inserts the attribute into
/// the element's attribute map and leaves its children alone.
#[verifier::external_body]
fn svg_document_set(d: svg::node::element::SVG, name: &str, value: &str) -> (r:
    svg::node::element::SVG)
    ensures
        doc_attrs(r) == doc_attrs(d).insert(name@, value@),
        doc_groups(r) == doc_groups(d),
{
    d.set(name, value)
}

/// Relies on svg::node::element::SVG::add: appends the child and leaves
/// the attributes alone.
#[verifier::external_body]
fn svg_document_add_group(
    d: svg::node::element::SVG,
    g: svg::node::element::Group,
) -> (r: svg::node::element::SVG)
    ensures
        doc_attrs(r) == doc_attrs(d),
        doc_groups(r) == doc_groups(d).push(group_cells(g)),
{
    d.add(g)
}

/// Relies on the `svg` crate's Display implementation for elements: the
/// text is determined by the element tree alone, attributes written in
/// sorted order, children in order.
#[verifier::external_body]
fn svg_document_to_string(d: &svg::node::element::SVG) -> (s: String)
    ensures
        s@ == doc_markup(doc_attrs(*d), doc_groups(*d)),
{
    d.to_string()
}

/// The band color for a daily contribution count: the standard activity
/// palette with inclusive thresholds at 0, 5, 10 and 20.
pub open spec fn band_color(count: u64) -> Seq<char> {
    if count == 0 {
        "#ebedf0"@
    } else if count <= 5 {
        "#c6e48b"@
    } else if count <= 10 {
        "#7bc96f"@
    } else if count <= 20 {
        "#239a3b"@
    } else {
        "#196127"@
    }
}

/// Picks the band color for a contribution count.
pub fn band_color_string(count: u64) -> (r: String)
    ensures
        r@ == band_color(count),
{
    if count == 0 {
        String::from_str("#ebedf0")
    } else if count <= 5 {
        String::from_str("#c6e48b")
    } else if count <= 10 {
        String::from_str("#7bc96f")
    } else if count <= 20 {
        String::from_str("#239a3b")
    } else {
        String::from_str("#196127")
    }
}

/// The animation start time of the cell at `index`: a fifth of a second
/// per position, written with one decimal place, as `0.0s`, `0.2s`, ...
pub open spec fn begin_time(index: nat) -> Seq<char> {
    dec_nat(2 * index / 10).push('.').push(digit_char((2 * index % 10) as int)).push('s')
}

/// Renders the animation start time of the cell at `index`.
pub fn begin_time_string(index: u64) -> (r: String)
    requires
        2 * index <= u64::MAX,
    ensures
        r@ == begin_time(index as nat),
{
    let t: u64 = 2 * index;
    let mut s = u64_to_string(t / 10);
    let dot = String::from_str(".");
    let tenth = digit_string(t % 10);
    let unit = String::from_str("s");
    s.append(dot.as_str());
    s.append(tenth.as_str());
    s.append(unit.as_str());
    proof {
        reveal_strlit(".");
        reveal_strlit("s");
        assert(s@ =~= begin_time(index as nat));
    }
    s
}

/// The attributes of the cell at `index`: column `index / 7`, row
/// `index % 7`, 15 units per step, a 10x10 square with 2-unit rounded
/// corners, drawn in the empty color.
pub open spec fn cell_attrs(index: nat) -> Map<Seq<char>, Seq<char>> {
    Map::<Seq<char>, Seq<char>>::empty().insert("x"@, dec_nat(index / 7 * 15)).insert(
        "y"@,
        dec_nat(index % 7 * 15),
    ).insert("width"@, "10"@).insert("height"@, "10"@).insert("fill"@, "#ebedf0"@).insert(
        "rx"@,
        "2"@,
    )
}

/// The animation of the cell at `index` for `count` contributions: from
/// the empty color to the band color, starting at the cell's time,
/// effectively instantaneous, and held afterwards.
pub open spec fn cell_animate(index: nat, count: u64) -> Map<Seq<char>, Seq<char>> {
    Map::<Seq<char>, Seq<char>>::empty().insert("attributeName"@, "fill"@).insert(
        "from"@,
        "#ebedf0"@,
    ).insert("to"@, band_color(count)).insert("begin"@, begin_time(index)).insert(
        "dur"@,
        "0.01s"@,
    ).insert("fill"@, "freeze"@)
}

/// Builds the cell at `index` for `count` contributions.
fn grid_cell(index: u64, count: u64) -> (r: svg::node::element::Rectangle)
    requires
        index <= u64::MAX / 15,
    ensures
        rect_attrs(r) == cell_attrs(index as nat),
        rect_animates(r) == seq![cell_animate(index as nat, count)],
{
    let x: u64 = index / 7 * 15;
    let y: u64 = index % 7 * 15;
    let xs = u64_to_string(x);
    let ys = u64_to_string(y);
    let mut r = svg_rect_new();
    r = svg_rect_set(r, "x", xs.as_str());
    r = svg_rect_set(r, "y", ys.as_str());
    r = svg_rect_set(r, "width", "10");
    r = svg_rect_set(r, "height", "10");
    r = svg_rect_set(r, "fill", "#ebedf0");
    r = svg_rect_set(r, "rx", "2");

    let to = band_color_string(count);
    let begin = begin_time_string(index);
    let mut a = svg_animate_new();
    a = svg_animate_set(a, "attributeName", "fill");
    a = svg_animate_set(a, "from", "#ebedf0");
    a = svg_animate_set(a, "to", to.as_str());
    a = svg_animate_set(a, "begin", begin.as_str());
    a = svg_animate_set(a, "dur", "0.01s");
    a = svg_animate_set(a, "fill", "freeze");
    r = svg_rect_add_animate(r, a);
    proof {
        assert(rect_attrs(r) =~= cell_attrs(index as nat));
        assert(animate_attrs(a) =~= cell_animate(index as nat, count));
        assert(rect_animates(r) =~= seq![cell_animate(index as nat, count)]);
    }
    r
}

/// The document's own attributes: the namespace and the fixed 800x200
/// viewport.
pub open spec fn grid_doc_attrs() -> Map<Seq<char>, Seq<char>> {
    Map::<Seq<char>, Seq<char>>::empty().insert("xmlns"@, "http://www.w3.org/2000/svg"@).insert(
        "viewBox"@,
        "0 0 800 200"@,
    )
}

/// The cells of a calendar, one per daily record, in calendar order.
pub open spec fn grid_cells(days: Seq<u64>) -> Seq<
    (Map<Seq<char>, Seq<char>>, Seq<Map<Seq<char>, Seq<char>>>),
> {
    Seq::new(days.len(), |i: int| (cell_attrs(i as nat), seq![cell_animate(i as nat, days[i])]))
}

/// The contribution grid renderer's computation: builds the heatmap
/// document for the snapshot's calendar and serializes it.
pub fn contributions_grid_content(stats: &Stats) -> (r: String)
    requires
        stats.contribution_calendar@.len() <= u64::MAX / 15,
    ensures
        r@ == doc_markup(grid_doc_attrs(), seq![grid_cells(stats.contribution_calendar@)]),
{
    let mut d = svg_document_new();
    d = svg_document_set(d, "viewBox", "0 0 800 200");
    d = svg_document_set(d, "xmlns", "http://www.w3.org/2000/svg");
    proof {
        reveal_strlit("xmlns");
        reveal_strlit("viewBox");
        assert("xmlns"@.len() == 5);
        assert("viewBox"@.len() == 7);
        assert(doc_attrs(d) =~= grid_doc_attrs());
    }
    let mut g = svg_group_new();
    let calendar = &stats.contribution_calendar;
    let mut i: usize = 0;
    proof {
        assert(grid_cells(calendar@.take(0)) =~= group_cells(g));
    }
    while i < calendar.len()
        invariant
            i <= calendar@.len(),
            calendar@ == stats.contribution_calendar@,
            calendar@.len() <= u64::MAX / 15,
            doc_attrs(d) == grid_doc_attrs(),
            doc_groups(d) == Seq::<
                Seq<(Map<Seq<char>, Seq<char>>, Seq<Map<Seq<char>, Seq<char>>>)>,
            >::empty(),
            group_cells(g) == grid_cells(calendar@.take(i as int)),
        decreases calendar@.len() - i,
    {
        let cell = grid_cell(i as u64, calendar[i]);
        g = svg_group_add_rect(g, cell);
        proof {
            assert(grid_cells(calendar@.take(i + 1)) =~= grid_cells(calendar@.take(i as int)).push(
                (cell_attrs(i as nat), seq![cell_animate(i as nat, calendar@[i as int])]),
            ));
        }
        i += 1;
    }
    proof {
        assert(calendar@.take(calendar@.len() as int) =~= calendar@);
    }
    d = svg_document_add_group(d, g);
    proof {
        assert(doc_groups(d) =~= seq![grid_cells(stats.contribution_calendar@)]);
    }
    svg_document_to_string(&d)
}

/// Rendering the contribution grid is a function of the snapshot's
/// calendar alone: two runs over equal inputs agree byte for byte.
pub proof fn lemma_grid_idempotent(stats1: Stats, stats2: Stats, r1: Seq<char>, r2: Seq<char>)
    requires
        stats1 == stats2,
        r1 == doc_markup(grid_doc_attrs(), seq![grid_cells(stats1.contribution_calendar@)]),
        r2 == doc_markup(grid_doc_attrs(), seq![grid_cells(stats2.contribution_calendar@)]),
    ensures
        r1 == r2,
{
}

} // verus!
