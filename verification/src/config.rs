//! Configuration: the mapping from column name to path expression that
//! drives extraction, and the presentation metadata that passes through
//! the core untouched.

use vstd::prelude::*;

verus! {

/// The extraction configuration: each entry maps one column name to the
/// path expression that fills it. Presentation metadata lives with the
/// caller; the core reads only the column names and paths.
pub struct Config {
    /// Column name to path expression.
    pub fields: Vec<(String, String)>,
}

/// The configured column names, in configuration order.
pub open spec fn config_keys(c: Config) -> Seq<String> {
    c.fields@.map_values(|p: (String, String)| p.0)
}

/// The path expression configured for `col`, taking the first entry with
/// that name.
pub open spec fn path_for(fields: Seq<(String, String)>, col: Seq<char>) -> Option<Seq<char>>
    decreases fields.len(),
{
    if fields.len() == 0 {
        None
    } else if fields[0].0@ == col {
        Some(fields[0].1@)
    } else {
        path_for(fields.skip(1), col)
    }
}

/// One display element of a rendered row, as configured.
pub struct ElementConfig {
    pub expr: String,
    pub style: Option<String>,
    pub tooltip: Option<String>,
}

/// One display row of a rendered column, as configured.
pub struct RowConfig {
    pub expr: Option<String>,
    pub style: Option<String>,
    pub max_lines: Option<i32>,
    pub ellipsis: Option<bool>,
    pub tooltip: Option<String>,
    pub elements: Vec<ElementConfig>,
}

/// One display element handed to the renderer.
#[derive(Debug, Clone)]
pub struct RenderElement {
    pub expr: String,
    pub style: Option<String>,
}

/// One display cell handed to the renderer.
#[derive(Debug, Clone)]
pub struct RenderCell {
    pub expr: Option<String>,
    pub style: Option<String>,
    pub max_lines: Option<i32>,
    pub ellipsis: Option<bool>,
    pub elements: Vec<RenderElement>,
}

/// The renderer's view of one configured element: the expression and
/// style carried over, the tooltip dropped.
pub open spec fn spec_render_element(e: ElementConfig) -> RenderElement {
    RenderElement { expr: e.expr, style: e.style }
}

/// Converts one configured element for the renderer.
pub fn render_element_of(e: ElementConfig) -> (r: RenderElement)
    ensures
        r == spec_render_element(e),
{
    RenderElement { expr: e.expr, style: e.style }
}

/// The renderer's view of a configured element list.
pub open spec fn spec_render_elements(es: Seq<ElementConfig>) -> Seq<RenderElement> {
    es.map_values(|e: ElementConfig| spec_render_element(e))
}

/// Converts one configured row for the renderer, mapping each element in
/// order.
pub fn render_cell_of(row: RowConfig) -> (r: RenderCell)
    ensures
        r.expr == row.expr,
        r.style == row.style,
        r.max_lines == row.max_lines,
        r.ellipsis == row.ellipsis,
        r.elements@ == spec_render_elements(row.elements@),
{
    let RowConfig { expr, style, max_lines, ellipsis, tooltip: _, elements } = row;
    let ghost orig = elements@;
    let mut out: Vec<RenderElement> = Vec::new();
    let mut rest = elements;
    let mut taken: usize = 0;
    let n = rest.len();
    proof {
        assert(orig.len() == n);
    }
    while rest.len() > 0
        invariant
            orig.len() <= usize::MAX,
            taken + rest@.len() == orig.len(),
            rest@ =~= orig.skip(taken as int),
            out@ =~= orig.take(taken as int).map_values(
                |e: ElementConfig| spec_render_element(e),
            ),
        decreases rest@.len(),
    {
        let e = rest.remove(0);
        proof {
            assert(e == orig[taken as int]);
            assert(orig.take(taken + 1).drop_last() =~= orig.take(taken as int));
            assert(orig.take(taken + 1).map_values(|x: ElementConfig| spec_render_element(x))
                =~= orig.take(taken as int).map_values(|x: ElementConfig| spec_render_element(x)).push(
                spec_render_element(orig[taken as int]),
            ));
        }
        out.push(render_element_of(e));
        taken = taken + 1;
        proof {
            assert(rest@ =~= orig.skip(taken as int));
        }
    }
    proof {
        assert(orig.take(taken as int) =~= orig);
    }
    RenderCell { expr, style, max_lines, ellipsis, elements: out }
}

} // verus!
