//! Tests of the presentation pass-through: configured rows and elements
//! map to render cells with the tooltip dropped and order kept.

use logparser::config::{render_cell_of, render_element_of, ElementConfig, RowConfig};

#[test]
fn elements_map_expr_and_style() {
    let e = ElementConfig {
        expr: "$line.msg".to_string(),
        style: Some("tag".to_string()),
        tooltip: Some("hover".to_string()),
    };
    let r = render_element_of(e);
    assert_eq!(r.expr, "$line.msg");
    assert_eq!(r.style, Some("tag".to_string()));
}

#[test]
fn rows_map_fields_and_elements_in_order() {
    let row = RowConfig {
        expr: Some("$line.msg".to_string()),
        style: Some("text".to_string()),
        max_lines: Some(2),
        ellipsis: Some(true),
        tooltip: Some("dropped".to_string()),
        elements: vec![
            ElementConfig {
                expr: "$line.a".to_string(),
                style: Some("tag".to_string()),
                tooltip: None,
            },
            ElementConfig {
                expr: "$line.b".to_string(),
                style: None,
                tooltip: None,
            },
        ],
    };
    let cell = render_cell_of(row);
    assert_eq!(cell.expr, Some("$line.msg".to_string()));
    assert_eq!(cell.style, Some("text".to_string()));
    assert_eq!(cell.max_lines, Some(2));
    assert_eq!(cell.ellipsis, Some(true));
    assert_eq!(cell.elements.len(), 2);
    assert_eq!(cell.elements[0].expr, "$line.a");
    assert_eq!(cell.elements[0].style, Some("tag".to_string()));
    assert_eq!(cell.elements[1].expr, "$line.b");
    assert_eq!(cell.elements[1].style, None);
}
