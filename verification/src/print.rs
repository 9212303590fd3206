//! Tables for an operator: what a port shows of itself, as lines of text.

use crate::dump::DumpLayerResp;
use crate::dump::DumpUftResp;
use crate::dump::LayerDesc;
use crate::dump::ListLayersResp;
use crate::dump::RuleDump;
use crate::flow_table::FlowEntryDump;
use crate::packet::InnerFlowId;
use crate::text::decimal;
use crate::text::decimal_string;
use crate::text::padded;
use crate::text::push_decimal;
use crate::text::push_padded;
use crate::text::push_repeated;
use crate::text::repeated;
use vstd::prelude::*;
use vstd::string::StringExecFns;

verus! {

/// The width of a horizontal rule.
pub const RULE_WIDTH: usize = 70;

/// A horizontal rule in bold: a line of equals signs.
pub open spec fn hrb_text() -> Seq<char> {
    repeated('=', RULE_WIDTH as nat)
}

/// A horizontal rule: a line of hyphens.
pub open spec fn hr_text() -> Seq<char> {
    repeated('-', RULE_WIDTH as nat)
}

/// The heading of a table of rules.
pub open spec fn rule_header_text() -> Seq<char> {
    padded("ID"@, 8) + seq![' '] + padded("PRI"@, 6) + seq![' '] + padded("PREDICATES"@, 48) + seq![' '] + padded(
        "ACTION"@,
        18,
    )
}

/// The heading of a table of flows.
pub open spec fn flow_header_text() -> Seq<char> {
    padded("PROTO"@, 6) + seq![' '] + padded("SRC IP"@, 16) + seq![' '] + padded("SPORT"@, 6) + seq![' '] + padded(
        "DST IP"@,
        16,
    ) + seq![' '] + padded("DPORT"@, 6) + seq![' '] + padded("HITS"@, 8) + seq![' '] + padded("ACTION"@, 22)
}

/// The heading of a list of layers.
pub open spec fn layers_header_text() -> Seq<char> {
    padded("NAME"@, 12) + seq![' '] + padded("RULES IN"@, 10) + seq![' '] + padded("RULES OUT"@, 10) + seq![
        ' ',
    ] + padded("FLOWS"@, 10)
}

/// The texts of `v`, with a space between them.
pub open spec fn spaced(v: Seq<String>) -> Seq<char>
    decreases v.len(),
{
    if v.len() == 0 {
        Seq::empty()
    } else if v.len() == 1 {
        v[0]@
    } else {
        spaced(v.drop_last()) + seq![' '] + v.last()@
    }
}

/// The predicates of a rule as they are shown: those on the headers, a space, those on the
/// body; a star where the rule has no predicate at all.
pub open spec fn preds_text(rule: RuleDump) -> Seq<char> {
    if rule.predicates@.len() == 0 && rule.data_predicates@.len() == 0 {
        "*"@
    } else {
        spaced(rule.predicates@) + seq![' '] + spaced(rule.data_predicates@)
    }
}

/// The text that the standard library writes for the string `s` where a string is shown
/// for debugging: `s` between double quotes, with its double quotes, backslashes and
/// the characters that cannot be printed written as escapes.
pub uninterp spec fn debug_text(s: Seq<char>) -> Seq<char>;

/// `Debug` of `str`, through `format!` with `{:?}`: the string between double quotes, with
/// escapes. The text depends on the string alone.
#[verifier::external_body]
fn debug_string(s: &str) -> (r: String)
    ensures
        r@ == debug_text(s@),
{
    format!("{:?}", s)
}

/// The line of a table of rules for the rule `rule` with the number `id`, where `action`
/// is what is shown of the action.
pub open spec fn rule_line_with(id: u64, rule: RuleDump, action: Seq<char>) -> Seq<char> {
    padded(decimal(id as nat), 8) + seq![' '] + padded(decimal(rule.priority as nat), 6) + seq![' '] + padded(
        preds_text(rule),
        48,
    ) + seq![' '] + action
}

/// The line of a table of rules for the rule `rule` with the number `id`. The words on the
/// action are shown as [`debug_text`] writes them.
pub open spec fn rule_line(id: u64, rule: RuleDump) -> Seq<char> {
    rule_line_with(id, rule, debug_text(rule.action@))
}

/// The line of a table of flows for the flow `flow_id`.
pub open spec fn flow_line(flow_id: InnerFlowId, entry: FlowEntryDump) -> Seq<char> {
    padded(flow_id.proto.text(), 6) + seq![' '] + padded(flow_id.src_ip.text(), 16) + seq![' '] + padded(
        decimal(flow_id.src_port as nat),
        6,
    ) + seq![' '] + padded(flow_id.dst_ip.text(), 16) + seq![' '] + padded(decimal(flow_id.dst_port as nat), 6) + seq![
        ' ',
    ] + padded(decimal(entry.hits as nat), 8) + seq![' '] + padded(entry.state_summary@, 22)
}

/// The line of a list of layers for the layer that `desc` describes.
pub open spec fn layer_line(desc: LayerDesc) -> Seq<char> {
    padded(desc.name@, 12) + seq![' '] + padded(decimal(desc.rules_in as nat), 10) + seq![' '] + padded(
        decimal(desc.rules_out as nat),
        10,
    ) + seq![' '] + padded(decimal(desc.flows as nat), 10)
}

/// The lines for the flows `v`, each with a line feed after it.
pub open spec fn flow_lines(v: Seq<(InnerFlowId, FlowEntryDump)>) -> Seq<char>
    decreases v.len(),
{
    if v.len() == 0 {
        Seq::empty()
    } else {
        flow_lines(v.drop_last()) + flow_line(v.last().0, v.last().1) + seq!['\n']
    }
}

/// The lines for the rules `v`, each with a line feed after it.
pub open spec fn rule_lines(v: Seq<(u64, RuleDump)>) -> Seq<char>
    decreases v.len(),
{
    if v.len() == 0 {
        Seq::empty()
    } else {
        rule_lines(v.drop_last()) + rule_line(v.last().0, v.last().1) + seq!['\n']
    }
}

/// The lines for the layers `v`, each with a line feed after it.
pub open spec fn layer_lines(v: Seq<LayerDesc>) -> Seq<char>
    decreases v.len(),
{
    if v.len() == 0 {
        Seq::empty()
    } else {
        layer_lines(v.drop_last()) + layer_line(v.last()) + seq!['\n']
    }
}

/// A table of flows under the title `title`: the title, a rule, the heading, the flows.
pub open spec fn flow_table_text(title: Seq<char>, v: Seq<(InnerFlowId, FlowEntryDump)>) -> Seq<char> {
    title + seq!['\n'] + hr_text() + seq!['\n'] + flow_header_text() + seq!['\n'] + flow_lines(v)
}

/// A table of rules under the title `title`: the title, a rule, the heading, the rules.
pub open spec fn rule_table_text(title: Seq<char>, v: Seq<(u64, RuleDump)>) -> Seq<char> {
    title + seq!['\n'] + hr_text() + seq!['\n'] + rule_header_text() + seq!['\n'] + rule_lines(v)
}

/// What is printed for a layer: its name, a bold rule, its flows and its rules of each
/// direction, with an empty line before each table but the first and one at the end.
pub open spec fn layer_text(resp: DumpLayerResp) -> Seq<char> {
    "Layer "@ + resp.name@ + seq!['\n'] + hrb_text() + seq!['\n'] + flow_table_text("Inbound Flows"@, resp.ft_in@)
        + flow_table_text("\nOutbound Flows"@, resp.ft_out@) + rule_table_text("\nInbound Rules"@, resp.rules_in@)
        + rule_table_text("\nOutbound Rules"@, resp.rules_out@) + seq!['\n']
}

/// What is printed for a list of layers: the heading and one line for each layer.
pub open spec fn list_layers_text(resp: ListLayersResp) -> Seq<char> {
    layers_header_text() + seq!['\n'] + layer_lines(resp.layers@)
}

/// The title of a unified flow table: the direction, the number of flows, and the number
/// of flows that the table has room for.
pub open spec fn uft_title(name: Seq<char>, num_flows: u32, limit: u32) -> Seq<char> {
    name + decimal(num_flows as nat) + seq!['/'] + decimal(limit as nat)
}

/// What is printed for the unified flow tables: one table for each direction, with an
/// empty line between them.
pub open spec fn uft_text(uft: DumpUftResp) -> Seq<char> {
    flow_table_text(uft_title("UFT Inbound: "@, uft.in_num_flows, uft.in_limit), uft.in_flows@) + seq!['\n']
        + flow_table_text(uft_title("UFT Outbound: "@, uft.out_num_flows, uft.out_limit), uft.out_flows@)
}

// Appends the number `n` to `out`, with spaces after it up to the width `width`.
fn push_padded_number(out: &mut String, n: u64, width: usize)
    ensures
        final(out)@ == old(out)@ + padded(decimal(n as nat), width as nat),
{
    let s = decimal_string(n);
    push_padded(out, s.as_str(), width);
}

// Appends the texts of `v` to `out`, with a space between them.
fn push_spaced(out: &mut String, v: &Vec<String>)
    ensures
        final(out)@ == old(out)@ + spaced(v@),
{
    let n = v.len();
    let mut i: usize = 0;
    assert(v@.take(0) =~= Seq::<String>::empty());
    assert(out@ =~= old(out)@ + spaced(v@.take(0)));
    while i < n
        invariant
            i <= n == v.len(),
            out@ == old(out)@ + spaced(v@.take(i as int)),
        decreases n - i,
    {
        proof {
            let t = v@.take(i + 1);
            assert(t.drop_last() =~= v@.take(i as int));
            assert(t.last() == v@[i as int]);
            if i == 0 {
                assert(t[0] == v@[0]);
            }
        }
        if i > 0 {
            out.push(' ');
        }
        out.append(v[i].as_str());
        i = i + 1;
        assert(out@ =~= old(out)@ + spaced(v@.take(i as int)));
    }
    assert(v@.take(n as int) =~= v@);
}

/// A horizontal rule in bold.
pub fn hrb() -> (r: String)
    ensures
        r@ == hrb_text(),
{
    let mut out = String::new();
    push_repeated(&mut out, '=', RULE_WIDTH);
    assert(out@ =~= hrb_text());
    out
}

/// A horizontal rule.
pub fn hr() -> (r: String)
    ensures
        r@ == hr_text(),
{
    let mut out = String::new();
    push_repeated(&mut out, '-', RULE_WIDTH);
    assert(out@ =~= hr_text());
    out
}

/// The heading of a table of rules.
pub fn rule_header() -> (r: String)
    ensures
        r@ == rule_header_text(),
{
    let mut out = String::new();
    push_padded(&mut out, "ID", 8);
    out.push(' ');
    push_padded(&mut out, "PRI", 6);
    out.push(' ');
    push_padded(&mut out, "PREDICATES", 48);
    out.push(' ');
    push_padded(&mut out, "ACTION", 18);
    assert(out@ =~= rule_header_text());
    out
}

/// The heading of a table of flows.
pub fn flow_header() -> (r: String)
    ensures
        r@ == flow_header_text(),
{
    let mut out = String::new();
    push_padded(&mut out, "PROTO", 6);
    out.push(' ');
    push_padded(&mut out, "SRC IP", 16);
    out.push(' ');
    push_padded(&mut out, "SPORT", 6);
    out.push(' ');
    push_padded(&mut out, "DST IP", 16);
    out.push(' ');
    push_padded(&mut out, "DPORT", 6);
    out.push(' ');
    push_padded(&mut out, "HITS", 8);
    out.push(' ');
    push_padded(&mut out, "ACTION", 22);
    assert(out@ =~= flow_header_text());
    out
}

/// The line of a table of rules for the rule `rule` with the number `id`, where `action`
/// is what is shown of the action.
pub fn rule_text_with(id: u64, rule: &RuleDump, action: &str) -> (r: String)
    ensures
        r@ == rule_line_with(id, *rule, action@),
{
    let mut preds = String::new();
    if rule.predicates.len() == 0 && rule.data_predicates.len() == 0 {
        preds.push('*');
        assert(preds@ =~= "*"@) by {
            reveal_strlit("*");
        }
    } else {
        push_spaced(&mut preds, &rule.predicates);
        preds.push(' ');
        push_spaced(&mut preds, &rule.data_predicates);
        assert(preds@ =~= spaced(rule.predicates@) + seq![' '] + spaced(rule.data_predicates@));
    }
    let mut out = String::new();
    push_padded_number(&mut out, id, 8);
    out.push(' ');
    push_padded_number(&mut out, rule.priority as u64, 6);
    out.push(' ');
    push_padded(&mut out, preds.as_str(), 48);
    out.push(' ');
    out.append(action);
    assert(out@ =~= rule_line_with(id, *rule, action@));
    out
}

/// The line of a table of rules for the rule `rule` with the number `id`.
pub fn rule_text(id: u64, rule: &RuleDump) -> (r: String)
    ensures
        r@ == rule_line(id, *rule),
{
    let action = debug_string(rule.action.as_str());
    rule_text_with(id, rule, action.as_str())
}

/// The line of a table of flows for the flow `flow_id`.
pub fn flow_text(flow_id: &InnerFlowId, flow_entry: &FlowEntryDump) -> (r: String)
    ensures
        r@ == flow_line(*flow_id, *flow_entry),
{
    let mut out = String::new();
    let proto = flow_id.proto.to_string();
    push_padded(&mut out, proto.as_str(), 6);
    out.push(' ');
    let src = flow_id.src_ip.to_string();
    push_padded(&mut out, src.as_str(), 16);
    out.push(' ');
    push_padded_number(&mut out, flow_id.src_port as u64, 6);
    out.push(' ');
    let dst = flow_id.dst_ip.to_string();
    push_padded(&mut out, dst.as_str(), 16);
    out.push(' ');
    push_padded_number(&mut out, flow_id.dst_port as u64, 6);
    out.push(' ');
    push_padded_number(&mut out, flow_entry.hits, 8);
    out.push(' ');
    push_padded(&mut out, flow_entry.state_summary.as_str(), 22);
    assert(out@ =~= flow_line(*flow_id, *flow_entry));
    out
}

// Appends a table of flows.
fn push_flow_table(out: &mut String, title: &str, v: &Vec<(InnerFlowId, FlowEntryDump)>)
    ensures
        final(out)@ == old(out)@ + flow_table_text(title@, v@),
{
    out.append(title);
    out.push('\n');
    let rule = hr();
    out.append(rule.as_str());
    out.push('\n');
    let head = flow_header();
    out.append(head.as_str());
    out.push('\n');
    let ghost start = out@;
    assert(start =~= old(out)@ + (title@ + seq!['\n'] + hr_text() + seq!['\n'] + flow_header_text() + seq!['\n']));
    let n = v.len();
    let mut i: usize = 0;
    assert(v@.take(0) =~= Seq::<(InnerFlowId, FlowEntryDump)>::empty());
    assert(out@ =~= start + flow_lines(v@.take(0)));
    while i < n
        invariant
            i <= n == v.len(),
            out@ == start + flow_lines(v@.take(i as int)),
        decreases n - i,
    {
        proof {
            let t = v@.take(i + 1);
            assert(t.drop_last() =~= v@.take(i as int));
            assert(t.last() == v@[i as int]);
        }
        let line = flow_text(&v[i].0, &v[i].1);
        out.append(line.as_str());
        out.push('\n');
        i = i + 1;
        assert(out@ =~= start + flow_lines(v@.take(i as int)));
    }
    assert(v@.take(n as int) =~= v@);
    assert(out@ =~= old(out)@ + flow_table_text(title@, v@));
}

// Appends a table of rules.
fn push_rule_table(out: &mut String, title: &str, v: &Vec<(u64, RuleDump)>)
    ensures
        final(out)@ == old(out)@ + rule_table_text(title@, v@),
{
    out.append(title);
    out.push('\n');
    let rule = hr();
    out.append(rule.as_str());
    out.push('\n');
    let head = rule_header();
    out.append(head.as_str());
    out.push('\n');
    let ghost start = out@;
    assert(start =~= old(out)@ + (title@ + seq!['\n'] + hr_text() + seq!['\n'] + rule_header_text() + seq!['\n']));
    let n = v.len();
    let mut i: usize = 0;
    assert(v@.take(0) =~= Seq::<(u64, RuleDump)>::empty());
    assert(out@ =~= start + rule_lines(v@.take(0)));
    while i < n
        invariant
            i <= n == v.len(),
            out@ == start + rule_lines(v@.take(i as int)),
        decreases n - i,
    {
        proof {
            let t = v@.take(i + 1);
            assert(t.drop_last() =~= v@.take(i as int));
            assert(t.last() == v@[i as int]);
        }
        let line = rule_text(v[i].0, &v[i].1);
        out.append(line.as_str());
        out.push('\n');
        i = i + 1;
        assert(out@ =~= start + rule_lines(v@.take(i as int)));
    }
    assert(v@.take(n as int) =~= v@);
    assert(out@ =~= old(out)@ + rule_table_text(title@, v@));
}

/// What is printed for a layer.
pub fn layer_string(resp: &DumpLayerResp) -> (r: String)
    ensures
        r@ == layer_text(*resp),
{
    let mut out = "Layer ".to_owned();
    out.append(resp.name.as_str());
    out.push('\n');
    let bold = hrb();
    out.append(bold.as_str());
    out.push('\n');
    push_flow_table(&mut out, "Inbound Flows", &resp.ft_in);
    push_flow_table(&mut out, "\nOutbound Flows", &resp.ft_out);
    push_rule_table(&mut out, "\nInbound Rules", &resp.rules_in);
    push_rule_table(&mut out, "\nOutbound Rules", &resp.rules_out);
    out.push('\n');
    assert(out@ =~= layer_text(*resp));
    out
}

/// What is printed for a list of layers.
pub fn list_layers_string(resp: &ListLayersResp) -> (r: String)
    ensures
        r@ == list_layers_text(*resp),
{
    let mut out = String::new();
    push_padded(&mut out, "NAME", 12);
    out.push(' ');
    push_padded(&mut out, "RULES IN", 10);
    out.push(' ');
    push_padded(&mut out, "RULES OUT", 10);
    out.push(' ');
    push_padded(&mut out, "FLOWS", 10);
    out.push('\n');
    let ghost start = out@;
    assert(start =~= layers_header_text() + seq!['\n']);
    let v = &resp.layers;
    let n = v.len();
    let mut i: usize = 0;
    assert(v@.take(0) =~= Seq::<LayerDesc>::empty());
    assert(out@ =~= start + layer_lines(v@.take(0)));
    while i < n
        invariant
            i <= n == v.len(),
            out@ == start + layer_lines(v@.take(i as int)),
        decreases n - i,
    {
        proof {
            let t = v@.take(i + 1);
            assert(t.drop_last() =~= v@.take(i as int));
            assert(t.last() == v@[i as int]);
        }
        let desc = &v[i];
        let ghost before = out@;
        push_padded(&mut out, desc.name.as_str(), 12);
        out.push(' ');
        push_padded_number(&mut out, desc.rules_in as u64, 10);
        out.push(' ');
        push_padded_number(&mut out, desc.rules_out as u64, 10);
        out.push(' ');
        push_padded_number(&mut out, desc.flows as u64, 10);
        out.push('\n');
        assert(out@ =~= before + layer_line(*desc) + seq!['\n']);
        i = i + 1;
        assert(out@ =~= start + layer_lines(v@.take(i as int)));
    }
    assert(v@.take(n as int) =~= v@);
    out
}

/// What is printed for the unified flow tables.
pub fn uft_string(uft: &DumpUftResp) -> (r: String)
    ensures
        r@ == uft_text(*uft),
{
    let mut in_title = "UFT Inbound: ".to_owned();
    push_decimal(&mut in_title, uft.in_num_flows as u64);
    in_title.push('/');
    push_decimal(&mut in_title, uft.in_limit as u64);
    assert(in_title@ =~= uft_title("UFT Inbound: "@, uft.in_num_flows, uft.in_limit));
    let mut out_title = "UFT Outbound: ".to_owned();
    push_decimal(&mut out_title, uft.out_num_flows as u64);
    out_title.push('/');
    push_decimal(&mut out_title, uft.out_limit as u64);
    assert(out_title@ =~= uft_title("UFT Outbound: "@, uft.out_num_flows, uft.out_limit));
    let mut out = String::new();
    push_flow_table(&mut out, in_title.as_str(), &uft.in_flows);
    out.push('\n');
    push_flow_table(&mut out, out_title.as_str(), &uft.out_flows);
    assert(out@ =~= uft_text(*uft));
    out
}

} // verus!
