//! Text for reports.

use vstd::prelude::*;
use itertools::Itertools;
use crate::balance::{Balance, BalanceView};
use crate::components::{Component, ComponentRow, component_rows};
use crate::decimal::{
    decimal3, push_rounded_1, push_rounded_2, push_thousandths, thousandths_to_1, thousandths_to_2,
};
use crate::fixed::{floor_div, ints};
use crate::meta::{Meta, MetaEntry, meta_entries};
use crate::rennren::RenNren;
use crate::wfactors::{Factor, FactorRow, factor_rows};

verus! {

/// What a character is written as inside XML text: the reserved ones as
/// their entities, any other as itself.
pub open spec fn escaped_char(c: char) -> Seq<char> {
    if c == '&' {
        "&amp;"@
    } else if c == '<' {
        "&lt;"@
    } else if c == '>' {
        "&gt;"@
    } else if c == '\\' {
        "&apos;"@
    } else if c == '"' {
        "&quot;"@
    } else {
        seq![c]
    }
}

/// A text with every character written as it is inside XML text.
pub open spec fn escaped(s: Seq<char>) -> Seq<char>
    decreases s.len(),
{
    if s.len() == 0 {
        Seq::empty()
    } else {
        escaped(s.drop_last()) + escaped_char(s.last())
    }
}

/// Replaces the characters that are reserved in XML by their entities.
pub fn escape_xml(unescaped: &str) -> (r: String)
    ensures
        r@ == escaped(unescaped@),
{
    let mut out: String = String::new();
    assert(unescaped@.take(0) =~= Seq::<char>::empty());
    for c in it: unescaped.chars()
        invariant
            it.seq() == unescaped@,
            out@ == escaped(unescaped@.take(it.index() as int)),
    {
        proof {
            let k = it.index() as int;
            assert(unescaped@.take(k + 1).drop_last() =~= unescaped@.take(k));
            assert(unescaped@.take(k + 1).last() == c);
        }
        if c == '&' {
            out.append("&amp;");
        } else if c == '<' {
            out.append("&lt;");
        } else if c == '>' {
            out.append("&gt;");
        } else if c == '\\' {
            out.append("&apos;");
        } else if c == '"' {
            out.append("&quot;");
        } else {
            out.push(c);
            assert(out@ =~= escaped(unescaped@.take(it.index() as int)) + seq![c]);
        }
    }
    assert(unescaped@.take(unescaped@.len() as int) =~= unescaped@);
    out
}

/// The texts of a list, one after the other with a separator between each
/// two.
pub open spec fn joined(parts: Seq<Seq<char>>, sep: Seq<char>) -> Seq<char>
    decreases parts.len(),
{
    if parts.len() == 0 {
        Seq::empty()
    } else if parts.len() == 1 {
        parts[0]
    } else {
        joined(parts.drop_last(), sep) + sep + parts.last()
    }
}

/// What a list of texts holds.
pub open spec fn texts(parts: Seq<String>) -> Seq<Seq<char>> {
    Seq::new(parts.len(), |i: int| parts[i]@)
}

/// The texts of a list, one after the other with a separator between each
/// two.
///
/// Calls `itertools::Itertools::join` on the texts. It writes the first
/// item, then for each further item the separator and the item; for no
/// item it gives the empty text.
#[verifier::external_body]
fn join_texts(parts: &Vec<String>, sep: &str) -> (r: String)
    ensures
        r@ == joined(texts(parts@), sep@),
{
    parts.iter().join(sep)
}

/// A balance in a few lines of plain text: the reference area, the share of
/// exported energy that is credited, and the weighted energy per unit of
/// area at step B with its total and its renewable share.
pub open spec fn plain_text(b: BalanceView) -> Seq<char> {
    let v = b.balance_m2.B;
    "Area_ref = "@ + thousandths_to_2(b.arearef) + " [m2]\nk_exp = "@ + thousandths_to_2(b.k_exp)
        + "\nC_ep [kWh/m2.an]: ren = "@ + thousandths_to_1(v.ren as int) + ", nren = "@
        + thousandths_to_1(v.nren as int) + ", tot = "@ + thousandths_to_1(v.ren + v.nren)
        + ", RER = "@ + thousandths_to_2(v.rer_spec())
}

/// Writes a balance in a few lines of plain text.
pub fn balance_to_plain(balance: &Balance) -> (r: String)
    ensures
        r@ == plain_text(balance@),
{
    let v: RenNren = balance.balance_m2.B;
    let tot: i128 = v.ren as i128 + v.nren as i128;
    let rer: i128 = if tot > 0 {
        floor_div(v.ren as i128 * 1000, tot)
    } else {
        0
    };
    let mut out: String = String::from_str("Area_ref = ");
    push_rounded_2(&mut out, balance.arearef as i128);
    out.append(" [m2]\nk_exp = ");
    push_rounded_2(&mut out, balance.k_exp as i128);
    out.append("\nC_ep [kWh/m2.an]: ren = ");
    push_rounded_1(&mut out, v.ren as i128);
    out.append(", nren = ");
    push_rounded_1(&mut out, v.nren as i128);
    out.append(", tot = ");
    push_rounded_1(&mut out, tot);
    out.append(", RER = ");
    push_rounded_2(&mut out, rer);
    assert(out@ =~= plain_text(balance@));
    out
}

/// A metadata entry as an XML element.
pub open spec fn meta_xml(m: MetaEntry) -> Seq<char> {
    "      <Metadato><Clave>"@ + escaped(m.key) + "</Clave><Valor>"@ + escaped(m.value)
        + "</Valor></Metadato>"@
}

/// A weighting factor as an XML element.
pub open spec fn factor_xml(f: FactorRow) -> Seq<char> {
    "      <Dato><Vector>"@ + f.carrier.name_spec() + "</Vector><Origen>"@ + f.source.name_spec()
        + "</Origen><Destino>"@ + f.dest.name_spec() + "</Destino><Paso>"@ + f.step.name_spec()
        + "</Paso><ren>"@ + decimal3(f.ren) + "</ren><nren>"@ + decimal3(f.nren)
        + "</nren><Comentario>"@ + escaped(f.comment) + "</Comentario></Dato>"@
}

/// The quantities of a series, each written with two decimals.
pub open spec fn value_texts(values: Seq<int>) -> Seq<Seq<char>> {
    Seq::new(values.len(), |i: int| thousandths_to_2(values[i]))
}

/// A component as an XML element.
pub open spec fn component_xml(c: ComponentRow) -> Seq<char> {
    "      <Dato>\n            <Vector>"@ + c.carrier.name_spec() + "</Vector><Tipo>"@
        + c.ctype.name_spec() + "</Tipo><Subtipo>"@ + c.csubtype.name_spec()
        + "</Subtipo><Servicio>"@ + c.service.name_spec()
        + "</Servicio>\n            <Valores>"@ + joined(value_texts(c.values), ","@)
        + "</Valores>\n            <Comentario>"@ + escaped(c.comment)
        + "</Comentario>\n        </Dato>"@
}

/// The XML elements of a list of metadata entries.
pub open spec fn meta_xmls(m: Seq<MetaEntry>) -> Seq<Seq<char>> {
    Seq::new(m.len(), |i: int| meta_xml(m[i]))
}

/// The XML elements of a list of weighting factors.
pub open spec fn factor_xmls(t: Seq<FactorRow>) -> Seq<Seq<char>> {
    Seq::new(t.len(), |i: int| factor_xml(t[i]))
}

/// The XML elements of a list of components.
pub open spec fn component_xmls(rows: Seq<ComponentRow>) -> Seq<Seq<char>> {
    Seq::new(rows.len(), |i: int| component_xml(rows[i]))
}

/// A balance as an XML document: the factors and the components with
/// their metadata, the coefficients, and the weighted energy per unit of
/// area at step B as its total and its non-renewable part.
pub open spec fn xml_text(b: BalanceView) -> Seq<char> {
    let v = b.balance_m2.B;
    "<BalanceEPB>\n    <FactoresDePaso>\n        <Metadatos>\n    "@ + joined(
        meta_xmls(b.wfactors.wmeta),
        "\n"@,
    ) + "\n        </Metadatos>\n        <Datos>\n    "@ + joined(
        factor_xmls(b.wfactors.wdata),
        "\n"@,
    )
        + "\n        </Datos>\n    </FactoresDePaso>\n    <Componentes>\n        <Metadatos>\n    "@
        + joined(meta_xmls(b.components.cmeta), "\n"@)
        + "\n        </Metadatos>\n        <Datos>\n    "@ + joined(
        component_xmls(b.components.cdata),
        "\n"@,
    ) + "\n        </Datos>\n    </Componentes>\n    <kexp>"@ + thousandths_to_2(b.k_exp)
        + "</kexp>\n    <AreaRef>"@ + thousandths_to_2(b.arearef)
        + "</AreaRef><!-- área de referencia [m2] -->\n    <Epm2><!-- ep [kWh/m2.a] -->\n        <tot>"@
        + thousandths_to_1(v.ren + v.nren) + "</tot>\n        <nren>"@ + thousandths_to_1(
        v.nren as int,
    ) + "</nren>\n    </Epm2>\n</BalanceEPB>"@
}

/// A metadata entry as an XML element.
fn meta_to_xml(m: &Meta) -> (r: String)
    ensures
        r@ == meta_xml(m@),
{
    let mut out: String = String::from_str("      <Metadato><Clave>");
    out.append(escape_xml(m.key.as_str()).as_str());
    out.append("</Clave><Valor>");
    out.append(escape_xml(m.value.as_str()).as_str());
    out.append("</Valor></Metadato>");
    assert(out@ =~= meta_xml(m@));
    out
}

/// The XML elements of a list of metadata entries, one to a line.
fn metas_to_xml(meta: &Vec<Meta>) -> (r: String)
    ensures
        r@ == joined(meta_xmls(meta_entries(meta@)), "\n"@),
{
    let mut parts: Vec<String> = Vec::new();
    let n: usize = meta.len();
    let mut i: usize = 0;
    while i < n
        invariant
            i <= n,
            n == meta.len(),
            parts.len() == i,
            forall|j: int| 0 <= j < i ==> (#[trigger] parts[j])@ == meta_xml(meta[j]@),
        decreases n - i,
    {
        parts.push(meta_to_xml(&meta[i]));
        i = i + 1;
    }
    assert(texts(parts@) =~= meta_xmls(meta_entries(meta@)));
    join_texts(&parts, "\n")
}

/// A weighting factor as an XML element.
fn factor_to_xml(f: &Factor) -> (r: String)
    ensures
        r@ == factor_xml(f@),
{
    let mut out: String = String::from_str("      <Dato><Vector>");
    out.append(f.carrier.name());
    out.append("</Vector><Origen>");
    out.append(f.source.name());
    out.append("</Origen><Destino>");
    out.append(f.dest.name());
    out.append("</Destino><Paso>");
    out.append(f.step.name());
    out.append("</Paso><ren>");
    push_thousandths(&mut out, f.ren);
    out.append("</ren><nren>");
    push_thousandths(&mut out, f.nren);
    out.append("</nren><Comentario>");
    out.append(escape_xml(f.comment.as_str()).as_str());
    out.append("</Comentario></Dato>");
    assert(out@ =~= factor_xml(f@));
    out
}

/// The XML elements of a list of weighting factors, one to a line.
fn factors_to_xml(wdata: &Vec<Factor>) -> (r: String)
    ensures
        r@ == joined(factor_xmls(factor_rows(wdata@)), "\n"@),
{
    let mut parts: Vec<String> = Vec::new();
    let n: usize = wdata.len();
    let mut i: usize = 0;
    while i < n
        invariant
            i <= n,
            n == wdata.len(),
            parts.len() == i,
            forall|j: int| 0 <= j < i ==> (#[trigger] parts[j])@ == factor_xml(wdata[j]@),
        decreases n - i,
    {
        parts.push(factor_to_xml(&wdata[i]));
        i = i + 1;
    }
    assert(texts(parts@) =~= factor_xmls(factor_rows(wdata@)));
    join_texts(&parts, "\n")
}

/// The quantities of a series, each written with two decimals, with a
/// separator between each two.
pub fn values_to_text(values: &Vec<i64>, sep: &str) -> (r: String)
    ensures
        r@ == joined(value_texts(ints(values@)), sep@),
{
    let mut parts: Vec<String> = Vec::new();
    let n: usize = values.len();
    let mut i: usize = 0;
    while i < n
        invariant
            i <= n,
            n == values.len(),
            parts.len() == i,
            forall|j: int|
                0 <= j < i ==> (#[trigger] parts[j])@ == thousandths_to_2(values[j] as int),
        decreases n - i,
    {
        let mut one: String = String::new();
        push_rounded_2(&mut one, values[i] as i128);
        assert(one@ =~= thousandths_to_2(values[i as int] as int));
        parts.push(one);
        i = i + 1;
    }
    assert(texts(parts@) =~= value_texts(ints(values@)));
    join_texts(&parts, sep)
}

/// A component as an XML element.
fn component_to_xml(c: &Component) -> (r: String)
    ensures
        r@ == component_xml(c@),
{
    let mut out: String = String::from_str("      <Dato>\n            <Vector>");
    out.append(c.carrier.name());
    out.append("</Vector><Tipo>");
    out.append(c.ctype.name());
    out.append("</Tipo><Subtipo>");
    out.append(c.csubtype.name());
    out.append("</Subtipo><Servicio>");
    out.append(c.service.name());
    out.append("</Servicio>\n            <Valores>");
    out.append(values_to_text(&c.values, ",").as_str());
    out.append("</Valores>\n            <Comentario>");
    out.append(escape_xml(c.comment.as_str()).as_str());
    out.append("</Comentario>\n        </Dato>");
    assert(out@ =~= component_xml(c@));
    out
}

/// The XML elements of a list of components, one after the other.
fn components_to_xml(cdata: &Vec<Component>) -> (r: String)
    ensures
        r@ == joined(component_xmls(component_rows(cdata@)), "\n"@),
{
    let mut parts: Vec<String> = Vec::new();
    let n: usize = cdata.len();
    let mut i: usize = 0;
    while i < n
        invariant
            i <= n,
            n == cdata.len(),
            parts.len() == i,
            forall|j: int| 0 <= j < i ==> (#[trigger] parts[j])@ == component_xml(cdata[j]@),
        decreases n - i,
    {
        parts.push(component_to_xml(&cdata[i]));
        i = i + 1;
    }
    assert(texts(parts@) =~= component_xmls(component_rows(cdata@)));
    join_texts(&parts, "\n")
}

/// Writes a balance as an XML document.
pub fn balance_to_xml(balanceobj: &Balance) -> (r: String)
    ensures
        r@ == xml_text(balanceobj@),
{
    let v: RenNren = balanceobj.balance_m2.B;
    let tot: i128 = v.ren as i128 + v.nren as i128;
    let mut out: String = String::from_str(
        "<BalanceEPB>\n    <FactoresDePaso>\n        <Metadatos>\n    ",
    );
    out.append(metas_to_xml(&balanceobj.wfactors.wmeta).as_str());
    out.append("\n        </Metadatos>\n        <Datos>\n    ");
    out.append(factors_to_xml(&balanceobj.wfactors.wdata).as_str());
    out.append(
        "\n        </Datos>\n    </FactoresDePaso>\n    <Componentes>\n        <Metadatos>\n    ",
    );
    out.append(metas_to_xml(&balanceobj.components.cmeta).as_str());
    out.append("\n        </Metadatos>\n        <Datos>\n    ");
    out.append(components_to_xml(&balanceobj.components.cdata).as_str());
    out.append("\n        </Datos>\n    </Componentes>\n    <kexp>");
    push_rounded_2(&mut out, balanceobj.k_exp as i128);
    out.append("</kexp>\n    <AreaRef>");
    push_rounded_2(&mut out, balanceobj.arearef as i128);
    out.append(
        "</AreaRef><!-- área de referencia [m2] -->\n    <Epm2><!-- ep [kWh/m2.a] -->\n        <tot>",
    );
    push_rounded_1(&mut out, tot);
    out.append("</tot>\n        <nren>");
    push_rounded_1(&mut out, v.nren as i128);
    out.append("</nren>\n    </Epm2>\n</BalanceEPB>");
    assert(out@ =~= xml_text(balanceobj@));
    out
}

} // verus!
