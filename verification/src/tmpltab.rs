//! The template dictionary on the wire: each template is its id, the string
//! id of its HTML fragment, and its typed slot bindings with their tree-walk
//! paths.

use vstd::prelude::*;

use vstd::slice::slice_subrange;
use vstd::slice::slice_to_vec;

use crate::bytes::le16_bytes;
use crate::bytes::le32_bytes;
use crate::bytes::lemma_le16_roundtrip;
use crate::bytes::lemma_le32_roundtrip;
use crate::bytes::push_u16_le;
use crate::bytes::push_u32_le;
use crate::bytes::read_u16_le;
use crate::bytes::read_u32_le;
use crate::opwire::rd16;
use crate::opwire::rd32;
use crate::wire::Binding;
use crate::wire::BindingType;
use crate::wire::DecodeError;
use crate::wire::Limits;
use crate::wire::TemplateDef;

verus! {

/// The mathematical shape of a slot binding.
pub struct BindingV {
    pub slot_id: u16,
    pub binding_type: BindingType,
    pub path: Seq<u8>,
}

/// The mathematical shape of a template.
pub struct TemplateV {
    pub id: u16,
    pub html_string_id: u32,
    pub bindings: Seq<BindingV>,
}

impl View for Binding {
    type V = BindingV;

    open spec fn view(&self) -> BindingV {
        BindingV { slot_id: self.slot_id, binding_type: self.binding_type, path: self.path@ }
    }
}

impl View for TemplateDef {
    type V = TemplateV;

    open spec fn view(&self) -> TemplateV {
        TemplateV {
            id: self.id,
            html_string_id: self.html_string_id,
            bindings: self.bindings@.map_values(|bd: Binding| bd@),
        }
    }
}

/// The deep view of a template list.
pub open spec fn templates_view(ts: Seq<TemplateDef>) -> Seq<TemplateV> {
    ts.map_values(|t: TemplateDef| t@)
}

/// The wire bytes of a binding kind: a tag byte, then the name string id
/// for the kinds that carry one.
pub open spec fn ser_kind(k: BindingType) -> Seq<u8> {
    match k {
        BindingType::Text => seq![0u8],
        BindingType::Attribute { attr_name_id } => seq![1u8] + le32_bytes(attr_name_id),
        BindingType::Property { prop_name_id } => seq![2u8] + le32_bytes(prop_name_id),
        BindingType::Event { event_type_id } => seq![3u8] + le32_bytes(event_type_id),
        BindingType::Class => seq![4u8],
    }
}

/// The wire bytes of one slot binding.
pub open spec fn ser_binding(v: BindingV) -> Seq<u8> {
    le16_bytes(v.slot_id) + ser_kind(v.binding_type) + seq![v.path.len() as u8] + v.path
}

/// The wire bytes of a binding list, in order.
pub open spec fn ser_bindings(vs: Seq<BindingV>) -> Seq<u8>
    decreases vs.len(),
{
    if vs.len() == 0 {
        Seq::empty()
    } else {
        ser_binding(vs[0]) + ser_bindings(vs.skip(1))
    }
}

/// The wire bytes of one template: id, HTML string id, binding count,
/// then the bindings.
pub open spec fn ser_template(t: TemplateV) -> Seq<u8> {
    le16_bytes(t.id) + le32_bytes(t.html_string_id) + le16_bytes(t.bindings.len() as u16)
        + ser_bindings(t.bindings)
}

/// The wire bytes of the template table, in order.
pub open spec fn ser_templates(ts: Seq<TemplateV>) -> Seq<u8>
    decreases ts.len(),
{
    if ts.len() == 0 {
        Seq::empty()
    } else {
        ser_template(ts[0]) + ser_templates(ts.skip(1))
    }
}

/// What the encoder requires of a template so that it fits the wire:
/// the binding count fits a `u16` and every path length fits a `u8`.
pub open spec fn template_fits(t: TemplateV) -> bool {
    &&& t.bindings.len() <= 0xFFFF
    &&& (forall|k: int| 0 <= k < t.bindings.len() ==> (#[trigger] t.bindings[k].path).len() <= 0xFF)
}

pub open spec fn templates_fit(ts: Seq<TemplateV>) -> bool {
    forall|k: int| 0 <= k < ts.len() ==> template_fits(#[trigger] ts[k])
}

/// Parse a binding kind at offset `i`.
pub open spec fn parse_kind(b: Seq<u8>, i: int) -> Result<(BindingType, int), DecodeError> {
    if i + 1 > b.len() {
        Err(DecodeError::BufferTooSmall)
    } else if b[i] == 0 {
        Ok((BindingType::Text, i + 1))
    } else if b[i] == 4 {
        Ok((BindingType::Class, i + 1))
    } else if b[i] == 1 || b[i] == 2 || b[i] == 3 {
        if i + 5 > b.len() {
            Err(DecodeError::BufferTooSmall)
        } else if b[i] == 1 {
            Ok((BindingType::Attribute { attr_name_id: rd32(b, i + 1) }, i + 5))
        } else if b[i] == 2 {
            Ok((BindingType::Property { prop_name_id: rd32(b, i + 1) }, i + 5))
        } else {
            Ok((BindingType::Event { event_type_id: rd32(b, i + 1) }, i + 5))
        }
    } else {
        Err(DecodeError::InvalidOpcode)
    }
}

/// Parse one slot binding at offset `i`.
pub open spec fn parse_binding(b: Seq<u8>, i: int) -> Result<(BindingV, int), DecodeError> {
    if i + 2 > b.len() {
        Err(DecodeError::BufferTooSmall)
    } else {
        let slot_id = rd16(b, i);
        match parse_kind(b, i + 2) {
            Err(e) => Err(e),
            Ok((kind, j)) => if j + 1 > b.len() {
                Err(DecodeError::BufferTooSmall)
            } else {
                let pl = b[j] as int;
                if j + 1 + pl > b.len() {
                    Err(DecodeError::BufferTooSmall)
                } else {
                    Ok(
                        (
                            BindingV {
                                slot_id,
                                binding_type: kind,
                                path: b.subrange(j + 1, j + 1 + pl),
                            },
                            j + 1 + pl,
                        ),
                    )
                }
            },
        }
    }
}

/// Parse `n` slot bindings at offset `i`.
pub open spec fn parse_bindings(b: Seq<u8>, i: int, n: int) -> Result<
    (Seq<BindingV>, int),
    DecodeError,
>
    decreases n,
{
    if n <= 0 {
        Ok((Seq::empty(), i))
    } else {
        match parse_binding(b, i) {
            Err(e) => Err(e),
            Ok((v, j)) => match parse_bindings(b, j, n - 1) {
                Err(e) => Err(e),
                Ok((rest, k)) => Ok((seq![v] + rest, k)),
            },
        }
    }
}

/// Parse one template at offset `i`.
pub open spec fn parse_template(b: Seq<u8>, i: int) -> Result<(TemplateV, int), DecodeError> {
    if i + 8 > b.len() {
        Err(DecodeError::BufferTooSmall)
    } else {
        let id = rd16(b, i);
        let html_string_id = rd32(b, i + 2);
        let count = rd16(b, i + 6) as int;
        match parse_bindings(b, i + 8, count) {
            Err(e) => Err(e),
            Ok((bindings, j)) => Ok((TemplateV { id, html_string_id, bindings }, j)),
        }
    }
}

/// Parse `n` templates at offset `i`.
pub open spec fn parse_templates(b: Seq<u8>, i: int, n: int) -> Result<
    (Seq<TemplateV>, int),
    DecodeError,
>
    decreases n,
{
    if n <= 0 {
        Ok((Seq::empty(), i))
    } else {
        match parse_template(b, i) {
            Err(e) => Err(e),
            Ok((t, j)) => match parse_templates(b, j, n - 1) {
                Err(e) => Err(e),
                Ok((rest, k)) => Ok((seq![t] + rest, k)),
            },
        }
    }
}

/// Append the wire bytes of one binding.
pub fn write_binding(out: &mut Vec<u8>, bd: &Binding)
    requires
        bd@.path.len() <= 0xFF,
    ensures
        final(out)@ == old(out)@ + ser_binding(bd@),
{
    push_u16_le(out, bd.slot_id);
    match &bd.binding_type {
        BindingType::Text => {
            out.push(0u8);
        },
        BindingType::Attribute { attr_name_id } => {
            out.push(1u8);
            push_u32_le(out, *attr_name_id);
        },
        BindingType::Property { prop_name_id } => {
            out.push(2u8);
            push_u32_le(out, *prop_name_id);
        },
        BindingType::Event { event_type_id } => {
            out.push(3u8);
            push_u32_le(out, *event_type_id);
        },
        BindingType::Class => {
            out.push(4u8);
        },
    }
    let pl: u8 = bd.path.len() as u8;
    out.push(pl);
    let ghost mid = out@;
    let mut k: usize = 0;
    while k < bd.path.len()
        invariant
            k <= bd.path@.len(),
            out@ == mid + bd.path@.subrange(0, k as int),
        decreases bd.path@.len() - k,
    {
        let byte = bd.path[k];
        out.push(byte);
        proof {
            assert(bd.path@.subrange(0, k + 1) =~= bd.path@.subrange(0, k as int).push(
                bd.path@[k as int],
            ));
        }
        k = k + 1;
    }
    proof {
        assert(bd.path@.subrange(0, bd.path@.len() as int) =~= bd.path@);
        assert(final(out)@ =~= old(out)@ + ser_binding(bd@));
    }
}

/// Append the wire bytes of one template.
pub fn write_template(out: &mut Vec<u8>, t: &TemplateDef)
    requires
        template_fits(t@),
    ensures
        final(out)@ == old(out)@ + ser_template(t@),
{
    push_u16_le(out, t.id);
    push_u32_le(out, t.html_string_id);
    let count: u16 = t.bindings.len() as u16;
    push_u16_le(out, count);
    let ghost mid = out@;
    let ghost bvs = t@.bindings;
    let mut k: usize = 0;
    while k < t.bindings.len()
        invariant
            k <= t.bindings@.len(),
            bvs == t@.bindings,
            template_fits(t@),
            out@ == mid + ser_bindings(bvs.take(k as int)),
        decreases t.bindings@.len() - k,
    {
        proof {
            assert(bvs[k as int] == t.bindings@[k as int]@);
            assert(bvs[k as int].path.len() <= 0xFF);
        }
        write_binding(out, &t.bindings[k]);
        proof {
            lemma_ser_bindings_snoc(bvs.take(k as int), bvs[k as int]);
            assert(bvs.take(k + 1) =~= bvs.take(k as int).push(bvs[k as int]));
        }
        k = k + 1;
    }
    proof {
        assert(bvs.take(bvs.len() as int) =~= bvs);
        assert(final(out)@ =~= old(out)@ + ser_template(t@));
    }
}

/// Append the wire bytes of the template table.
pub fn write_templates(out: &mut Vec<u8>, ts: &Vec<TemplateDef>)
    requires
        templates_fit(templates_view(ts@)),
    ensures
        final(out)@ == old(out)@ + ser_templates(templates_view(ts@)),
{
    let ghost tv = templates_view(ts@);
    let mut k: usize = 0;
    while k < ts.len()
        invariant
            k <= ts@.len(),
            tv == templates_view(ts@),
            templates_fit(tv),
            out@ == old(out)@ + ser_templates(tv.take(k as int)),
        decreases ts@.len() - k,
    {
        proof {
            assert(tv[k as int] == ts@[k as int]@);
        }
        write_template(out, &ts[k]);
        proof {
            lemma_ser_templates_snoc(tv.take(k as int), tv[k as int]);
            assert(tv.take(k + 1) =~= tv.take(k as int).push(tv[k as int]));
        }
        k = k + 1;
    }
    proof {
        assert(tv.take(tv.len() as int) =~= tv);
    }
}

pub proof fn lemma_ser_bindings_snoc(vs: Seq<BindingV>, v: BindingV)
    ensures
        ser_bindings(vs.push(v)) == ser_bindings(vs) + ser_binding(v),
    decreases vs.len(),
{
    if vs.len() == 0 {
        assert(vs.push(v).skip(1) =~= Seq::<BindingV>::empty());
        assert(ser_bindings(Seq::<BindingV>::empty()) == Seq::<u8>::empty());
        assert(vs.push(v)[0] == v);
        assert(ser_bindings(vs.push(v)) =~= ser_bindings(vs) + ser_binding(v));
    } else {
        assert(vs.push(v).skip(1) =~= vs.skip(1).push(v));
        assert(vs.push(v)[0] == vs[0]);
        lemma_ser_bindings_snoc(vs.skip(1), v);
        assert(ser_bindings(vs.push(v)) =~= ser_bindings(vs) + ser_binding(v));
    }
}

pub proof fn lemma_ser_templates_snoc(ts: Seq<TemplateV>, t: TemplateV)
    ensures
        ser_templates(ts.push(t)) == ser_templates(ts) + ser_template(t),
    decreases ts.len(),
{
    if ts.len() == 0 {
        assert(ts.push(t).skip(1) =~= Seq::<TemplateV>::empty());
        assert(ser_templates(Seq::<TemplateV>::empty()) == Seq::<u8>::empty());
        assert(ts.push(t)[0] == t);
        assert(ser_templates(ts.push(t)) =~= ser_templates(ts) + ser_template(t));
    } else {
        assert(ts.push(t).skip(1) =~= ts.skip(1).push(t));
        assert(ts.push(t)[0] == ts[0]);
        lemma_ser_templates_snoc(ts.skip(1), t);
        assert(ser_templates(ts.push(t)) =~= ser_templates(ts) + ser_template(t));
    }
}

/// Read one binding at offset `i`, as `parse_binding` describes.
pub fn read_binding(b: &[u8], i: usize) -> (r: Result<(Binding, usize), DecodeError>)
    requires
        i <= b@.len(),
    ensures
        r matches Ok(p) ==> parse_binding(b@, i as int) == Ok::<(BindingV, int), DecodeError>(
            (p.0@, p.1 as int),
        ) && i < p.1 <= b@.len(),
        r matches Err(e) ==> parse_binding(b@, i as int) == Err::<(BindingV, int), DecodeError>(e),
{
    if b.len() - i < 2 {
        return Err(DecodeError::BufferTooSmall);
    }
    let slot_id = read_u16_le(b, i);
    let j0 = i + 2;
    if b.len() - j0 < 1 {
        return Err(DecodeError::BufferTooSmall);
    }
    let tag = b[j0];
    let kind: BindingType;
    let j: usize;
    if tag == 0 {
        kind = BindingType::Text;
        j = j0 + 1;
    } else if tag == 4 {
        kind = BindingType::Class;
        j = j0 + 1;
    } else if tag == 1 || tag == 2 || tag == 3 {
        if b.len() - j0 < 5 {
            return Err(DecodeError::BufferTooSmall);
        }
        let name = read_u32_le(b, j0 + 1);
        if tag == 1 {
            kind = BindingType::Attribute { attr_name_id: name };
        } else if tag == 2 {
            kind = BindingType::Property { prop_name_id: name };
        } else {
            kind = BindingType::Event { event_type_id: name };
        }
        j = j0 + 5;
    } else {
        return Err(DecodeError::InvalidOpcode);
    }
    if b.len() - j < 1 {
        return Err(DecodeError::BufferTooSmall);
    }
    let pl = b[j] as usize;
    if b.len() - (j + 1) < pl {
        return Err(DecodeError::BufferTooSmall);
    }
    let path = slice_to_vec(slice_subrange(b, j + 1, j + 1 + pl));
    Ok((Binding { slot_id, binding_type: kind, path }, j + 1 + pl))
}

/// Read one template at offset `i`, as `parse_template` describes.
pub fn read_template(b: &[u8], i: usize) -> (r: Result<(TemplateDef, usize), DecodeError>)
    requires
        i <= b@.len(),
    ensures
        r matches Ok(p) ==> parse_template(b@, i as int) == Ok::<(TemplateV, int), DecodeError>(
            (p.0@, p.1 as int),
        ) && i <= p.1 <= b@.len(),
        r matches Err(e) ==> parse_template(b@, i as int) == Err::<(TemplateV, int), DecodeError>(
            e,
        ),
{
    if b.len() - i < 8 {
        return Err(DecodeError::BufferTooSmall);
    }
    let id = read_u16_le(b, i);
    let html_string_id = read_u32_le(b, i + 2);
    let count = read_u16_le(b, i + 6);
    let mut bindings: Vec<Binding> = Vec::new();
    let mut cur: usize = i + 8;
    let mut k: u16 = 0;
    while k < count
        invariant
            i + 8 <= cur <= b@.len(),
            k <= count,
            count == rd16(b@, i + 6),
            i + 8 <= b@.len(),
            parse_bindings(b@, i + 8, count as int) == compose_bindings(
                bindings@.map_values(|bd: Binding| bd@),
                parse_bindings(b@, cur as int, count - k),
            ),
        decreases count - k,
    {
        match read_binding(b, cur) {
            Err(e) => {
                return Err(e);
            },
            Ok((bd, j)) => {
                proof {
                    let pre = bindings@.map_values(|x: Binding| x@);
                    let rest = parse_bindings(b@, j as int, count - k - 1);
                    assert(parse_bindings(b@, cur as int, count - k) == compose_bindings(
                        seq![bd@],
                        rest,
                    ));
                    match rest {
                        Ok(pr) => {
                            assert(pre + (seq![bd@] + pr.0) =~= pre.push(bd@) + pr.0);
                        },
                        Err(_) => {
                        },
                    }
                    assert(bindings@.push(bd).map_values(|x: Binding| x@) =~= pre.push(bd@));
                }
                bindings.push(bd);
                cur = j;
                k = k + 1;
            },
        }
    }
    proof {
        let pre = bindings@.map_values(|x: Binding| x@);
        assert(pre + Seq::<BindingV>::empty() =~= pre);
    }
    let t = TemplateDef { id, html_string_id, bindings };
    proof {
        assert(t@.bindings == t.bindings@.map_values(|x: Binding| x@));
    }
    Ok((t, cur))
}

/// Lift a bindings parse over those already taken off the front.
pub open spec fn compose_bindings(
    pre: Seq<BindingV>,
    r: Result<(Seq<BindingV>, int), DecodeError>,
) -> Result<(Seq<BindingV>, int), DecodeError> {
    match r {
        Ok((rest, j)) => Ok((pre + rest, j)),
        Err(e) => Err(e),
    }
}

/// Lift a templates parse over those already taken off the front.
pub open spec fn compose_templates(
    pre: Seq<TemplateV>,
    r: Result<(Seq<TemplateV>, int), DecodeError>,
) -> Result<(Seq<TemplateV>, int), DecodeError> {
    match r {
        Ok((rest, j)) => Ok((pre + rest, j)),
        Err(e) => Err(e),
    }
}

/// Read `n` templates at offset `i`, as `parse_templates` describes.
pub fn read_templates(b: &[u8], i: usize, n: u16) -> (r: Result<
    (Vec<TemplateDef>, usize),
    DecodeError,
>)
    requires
        i <= b@.len(),
    ensures
        r matches Ok(p) ==> parse_templates(b@, i as int, n as int) == Ok::<
            (Seq<TemplateV>, int),
            DecodeError,
        >((templates_view(p.0@), p.1 as int)) && i <= p.1 <= b@.len(),
        r matches Err(e) ==> parse_templates(b@, i as int, n as int) == Err::<
            (Seq<TemplateV>, int),
            DecodeError,
        >(e),
{
    let mut acc: Vec<TemplateDef> = Vec::new();
    let mut cur: usize = i;
    let mut k: u16 = 0;
    while k < n
        invariant
            i <= cur <= b@.len(),
            k <= n,
            parse_templates(b@, i as int, n as int) == compose_templates(
                templates_view(acc@),
                parse_templates(b@, cur as int, n - k),
            ),
        decreases n - k,
    {
        match read_template(b, cur) {
            Err(e) => {
                return Err(e);
            },
            Ok((t, j)) => {
                proof {
                    let pre = templates_view(acc@);
                    let rest = parse_templates(b@, j as int, n - k - 1);
                    assert(parse_templates(b@, cur as int, n - k) == compose_templates(
                        seq![t@],
                        rest,
                    ));
                    match rest {
                        Ok(pr) => {
                            assert(pre + (seq![t@] + pr.0) =~= pre.push(t@) + pr.0);
                        },
                        Err(_) => {
                        },
                    }
                    assert(templates_view(acc@.push(t)) =~= pre.push(t@));
                }
                acc.push(t);
                cur = j;
                k = k + 1;
            },
        }
    }
    proof {
        assert(templates_view(acc@) + Seq::<TemplateV>::empty() =~= templates_view(acc@));
    }
    Ok((acc, cur))
}

/// Whether a binding kind's name reference lies inside the string table.
pub open spec fn kind_ref_ok(k: BindingType, n_strings: int) -> bool {
    match k {
        BindingType::Text => true,
        BindingType::Class => true,
        BindingType::Attribute { attr_name_id } => attr_name_id < n_strings,
        BindingType::Property { prop_name_id } => prop_name_id < n_strings,
        BindingType::Event { event_type_id } => event_type_id < n_strings,
    }
}

/// Check binding `j` of a template: its slot id must not repeat an earlier
/// one (`InvalidOpcode`), its name must resolve (`StringOutOfBounds`), and
/// its path must respect the depth cap (`ResourceLimitExceeded`).
pub open spec fn check_binding(bs: Seq<BindingV>, j: int, n_strings: int, lim: Limits) -> Result<
    (),
    DecodeError,
> {
    if exists|i: int| 0 <= i < j && (#[trigger] bs[i]).slot_id == bs[j].slot_id {
        Err(DecodeError::InvalidOpcode)
    } else if !kind_ref_ok(bs[j].binding_type, n_strings) {
        Err(DecodeError::StringOutOfBounds)
    } else if bs[j].path.len() > lim.max_path_depth {
        Err(DecodeError::ResourceLimitExceeded)
    } else {
        Ok(())
    }
}

/// Check the bindings of a template from index `j` on, in order.
pub open spec fn check_bindings_from(
    bs: Seq<BindingV>,
    j: int,
    n_strings: int,
    lim: Limits,
) -> Result<(), DecodeError>
    decreases bs.len() - j,
{
    if j >= bs.len() || j < 0 {
        Ok(())
    } else {
        match check_binding(bs, j, n_strings, lim) {
            Err(e) => Err(e),
            Ok(_) => check_bindings_from(bs, j + 1, n_strings, lim),
        }
    }
}

/// Check template `k` of the table: ids must be dense (`TemplateNotFound`
/// when `ts[k].id != k`), the HTML string must resolve, and every binding
/// must pass.
pub open spec fn check_template_at(
    ts: Seq<TemplateV>,
    k: int,
    n_strings: int,
    lim: Limits,
) -> Result<(), DecodeError> {
    if ts[k].id != k {
        Err(DecodeError::TemplateNotFound)
    } else if ts[k].html_string_id >= n_strings {
        Err(DecodeError::StringOutOfBounds)
    } else {
        check_bindings_from(ts[k].bindings, 0, n_strings, lim)
    }
}

/// Check the template table from index `k` on, in order.
pub open spec fn check_templates_from(
    ts: Seq<TemplateV>,
    k: int,
    n_strings: int,
    lim: Limits,
) -> Result<(), DecodeError>
    decreases ts.len() - k,
{
    if k >= ts.len() || k < 0 {
        Ok(())
    } else {
        match check_template_at(ts, k, n_strings, lim) {
            Err(e) => Err(e),
            Ok(_) => check_templates_from(ts, k + 1, n_strings, lim),
        }
    }
}

/// Check the whole template table, as `check_templates_from` describes.
pub fn check_templates_exec(ts: &Vec<TemplateDef>, n_strings: u32, lim: &Limits) -> (r: Result<
    (),
    DecodeError,
>)
    ensures
        r matches Ok(p) ==> check_templates_from(templates_view(ts@), 0, n_strings as int, *lim)
            is Ok,
        r matches Err(e) ==> check_templates_from(templates_view(ts@), 0, n_strings as int, *lim)
            == Err::<(), DecodeError>(e),
{
    let ghost tv = templates_view(ts@);
    let mut k: usize = 0;
    while k < ts.len()
        invariant
            k <= ts@.len(),
            tv == templates_view(ts@),
            check_templates_from(tv, 0, n_strings as int, *lim) == check_templates_from(
                tv,
                k as int,
                n_strings as int,
                *lim,
            ),
        decreases ts@.len() - k,
    {
        proof {
            assert(tv[k as int] == ts@[k as int]@);
        }
        if ts[k].id as usize != k {
            return Err(DecodeError::TemplateNotFound);
        }
        if ts[k].html_string_id >= n_strings {
            return Err(DecodeError::StringOutOfBounds);
        }
        match check_bindings_exec(&ts[k].bindings, n_strings, lim) {
            Err(e) => {
                return Err(e);
            },
            Ok(_) => {
            },
        }
        k = k + 1;
    }
    Ok(())
}

/// Check one template's bindings, as `check_bindings_from` describes.
fn check_bindings_exec(bs: &Vec<Binding>, n_strings: u32, lim: &Limits) -> (r: Result<
    (),
    DecodeError,
>)
    ensures
        r matches Ok(p) ==> check_bindings_from(
            bs@.map_values(|bd: Binding| bd@),
            0,
            n_strings as int,
            *lim,
        ) is Ok,
        r matches Err(e) ==> check_bindings_from(
            bs@.map_values(|bd: Binding| bd@),
            0,
            n_strings as int,
            *lim,
        ) == Err::<(), DecodeError>(e),
{
    let ghost bv = bs@.map_values(|bd: Binding| bd@);
    let mut j: usize = 0;
    while j < bs.len()
        invariant
            j <= bs@.len(),
            bv == bs@.map_values(|bd: Binding| bd@),
            check_bindings_from(bv, 0, n_strings as int, *lim) == check_bindings_from(
                bv,
                j as int,
                n_strings as int,
                *lim,
            ),
        decreases bs@.len() - j,
    {
        proof {
            assert(bv[j as int] == bs@[j as int]@);
        }
        let mut i: usize = 0;
        let mut dup = false;
        while i < j
            invariant
                i <= j,
                j < bs@.len(),
                bv == bs@.map_values(|bd: Binding| bd@),
                dup == exists|x: int| 0 <= x < i && (#[trigger] bv[x]).slot_id == bv[j as int].slot_id,
            decreases j - i,
        {
            proof {
                assert(bv[i as int] == bs@[i as int]@);
            }
            if bs[i].slot_id == bs[j].slot_id {
                proof {
                    assert(bv[i as int].slot_id == bv[j as int].slot_id);
                }
                dup = true;
            }
            i = i + 1;
        }
        if dup {
            return Err(DecodeError::InvalidOpcode);
        }
        let name_ok = match &bs[j].binding_type {
            BindingType::Text => true,
            BindingType::Class => true,
            BindingType::Attribute { attr_name_id } => *attr_name_id < n_strings,
            BindingType::Property { prop_name_id } => *prop_name_id < n_strings,
            BindingType::Event { event_type_id } => *event_type_id < n_strings,
        };
        if !name_ok {
            return Err(DecodeError::StringOutOfBounds);
        }
        if bs[j].path.len() as u64 > lim.max_path_depth as u64 {
            return Err(DecodeError::ResourceLimitExceeded);
        }
        j = j + 1;
    }
    Ok(())
}

/// Whether the angle brackets of a fragment balance when scanned from
/// position `i` at nesting `depth`: the depth never goes negative and ends
/// at zero.
pub open spec fn angles_balanced_from(s: Seq<u8>, i: int, depth: int) -> bool
    decreases s.len() - i,
{
    if i < 0 || i >= s.len() {
        depth == 0
    } else if s[i] == 60 {
        angles_balanced_from(s, i + 1, depth + 1)
    } else if s[i] == 62 {
        depth > 0 && angles_balanced_from(s, i + 1, depth - 1)
    } else {
        angles_balanced_from(s, i + 1, depth)
    }
}

/// Whether `pat` occurs as a contiguous byte substring of `s`.
pub open spec fn contains_bytes_spec(s: Seq<u8>, pat: Seq<u8>) -> bool {
    exists|i: int|
        0 <= i <= s.len() - pat.len() && #[trigger] s.subrange(i, i + pat.len() as int) == pat
}

/// Byte substring search, as `contains_bytes_spec` describes.
fn contains_bytes(s: &[u8], pat: &[u8]) -> (r: bool)
    ensures
        r == contains_bytes_spec(s@, pat@),
{
    let n = s.len();
    let m = pat.len();
    if m > n {
        proof {
            assert(!contains_bytes_spec(s@, pat@));
        }
        return false;
    }
    if m == 0 {
        proof {
            assert(s@.subrange(0, 0 + pat@.len() as int) =~= pat@);
            assert(contains_bytes_spec(s@, pat@));
        }
        return true;
    }
    let mut i: usize = 0;
    while i <= n - m
        invariant
            i <= n - m + 1,
            1 <= m <= n,
            n == s@.len(),
            m == pat@.len(),
            forall|j: int| 0 <= j < i ==> #[trigger] s@.subrange(j, j + pat@.len() as int) != pat@,
        decreases n - m + 1 - i,
    {
        let mut k: usize = 0;
        let mut hit = true;
        while k < m
            invariant
                k <= m,
                i + m <= n,
                n == s@.len(),
                m == pat@.len(),
                hit == (forall|j: int| 0 <= j < k ==> s@[i + j] == pat@[j]),
            decreases m - k,
        {
            if s[i + k] != pat[k] {
                proof {
                    assert(s@[i + k as int] != pat@[k as int]);
                }
                hit = false;
            }
            k = k + 1;
        }
        if hit {
            proof {
                assert(s@.subrange(i as int, i + pat@.len() as int) =~= pat@);
            }
            return true;
        }
        proof {
            assert(exists|j: int| 0 <= j < m && s@[i + j] != pat@[j]);
            let j = choose|j: int| 0 <= j < m && s@[i + j] != pat@[j];
            assert(s@.subrange(i as int, i + pat@.len() as int)[j] == s@[i + j]);
        }
        i = i + 1;
    }
    proof {
        assert(!contains_bytes_spec(s@, pat@));
    }
    false
}

/// The syntactic shape an HTML fragment must have: balanced angle brackets
/// and none of the banned byte tokens (an inline script opener or a
/// script-scheme URL). The check is advisory: it catches corrupt streams
/// early, and the host remains responsible for safe instantiation.
pub open spec fn html_fragment_ok_spec(s: Seq<u8>) -> bool {
    &&& angles_balanced_from(s, 0, 0)
    &&& !contains_bytes_spec(s, "<script"@.map_values(|c: char| c as u8))
    &&& !contains_bytes_spec(s, "javascript:"@.map_values(|c: char| c as u8))
}

/// Check an HTML fragment's syntactic shape, as `html_fragment_ok_spec`
/// describes.
pub fn html_fragment_ok(s: &[u8]) -> (r: bool)
    ensures
        r == html_fragment_ok_spec(s@),
{
    let mut depth: usize = 0;
    let mut i: usize = 0;
    let n = s.len();
    let mut balanced = true;
    while i < n
        invariant
            i <= n,
            n == s@.len(),
            depth <= i,
            balanced ==> angles_balanced_from(s@, 0, 0) == angles_balanced_from(
                s@,
                i as int,
                depth as int,
            ),
            !balanced ==> !angles_balanced_from(s@, 0, 0),
        decreases n - i,
    {
        if s[i] == 60 {
            depth = depth + 1;
        } else if s[i] == 62 {
            if depth == 0 {
                proof {
                    lemma_unbalanced_stays(s@, i as int, 0);
                }
                balanced = false;
                depth = 0;
            } else {
                depth = depth - 1;
            }
        }
        i = i + 1;
    }
    let closed = balanced && depth == 0;
    proof {
        if balanced && depth != 0 {
            assert(!angles_balanced_from(s@, n as int, depth as int));
        }
    }
    let script_pat: [u8; 7] = [60, 115, 99, 114, 105, 112, 116];
    let js_pat: [u8; 11] = [106, 97, 118, 97, 115, 99, 114, 105, 112, 116, 58];
    proof {
        reveal_strlit("<script");
        reveal_strlit("javascript:");
        assert(script_pat@ =~= "<script"@.map_values(|c: char| c as u8));
        assert(js_pat@ =~= "javascript:"@.map_values(|c: char| c as u8));
    }
    let no_script = !contains_bytes(s, script_pat.as_slice());
    let no_js = !contains_bytes(s, js_pat.as_slice());
    closed && no_script && no_js
}

/// A scan that has already failed can not recover: once a closing bracket
/// appears at depth zero, no continuation balances.
proof fn lemma_unbalanced_stays(s: Seq<u8>, i: int, depth: int)
    requires
        0 <= i < s.len(),
        s[i] == 62,
        depth == 0,
    ensures
        !angles_balanced_from(s, i, depth),
{
}

/// Parsing is the inverse of serialization for one binding.
pub proof fn lemma_parse_ser_binding(b: Seq<u8>, i: int, v: BindingV)
    requires
        0 <= i,
        v.path.len() <= 0xFF,
        i + ser_binding(v).len() <= b.len(),
        b.subrange(i, i + ser_binding(v).len() as int) == ser_binding(v),
    ensures
        parse_binding(b, i) == Ok::<(BindingV, int), DecodeError>((v, i + ser_binding(v).len())),
{
    let s = ser_binding(v);
    assert forall|k: int| 0 <= k < s.len() implies b[i + k] == s[k] by {
        assert(b.subrange(i, i + s.len() as int)[k] == b[i + k]);
    }
    assert(b.subrange(i, i + s.len() as int)[0] == b[i]);
    assert(b[i] == s[0]);
    let sk = ser_kind(v.binding_type);
    let s1 = le16_bytes(v.slot_id);
    assert(s == s1 + sk + seq![v.path.len() as u8] + v.path);
    assert(s[0] == s1[0] && s[1] == s1[1]);
    lemma_le16_roundtrip(v.slot_id);
    let j = i + 2 + sk.len() as int;
    match v.binding_type {
        BindingType::Text => {
            assert(s[2] == 0u8);
        },
        BindingType::Class => {
            assert(s[2] == 4u8);
        },
        BindingType::Attribute { attr_name_id } => {
            let sn = le32_bytes(attr_name_id);
            assert(s[2] == 1u8);
            assert(s[3] == sn[0] && s[4] == sn[1] && s[5] == sn[2] && s[6] == sn[3]);
            lemma_le32_roundtrip(attr_name_id);
        },
        BindingType::Property { prop_name_id } => {
            let sn = le32_bytes(prop_name_id);
            assert(s[2] == 2u8);
            assert(s[3] == sn[0] && s[4] == sn[1] && s[5] == sn[2] && s[6] == sn[3]);
            lemma_le32_roundtrip(prop_name_id);
        },
        BindingType::Event { event_type_id } => {
            let sn = le32_bytes(event_type_id);
            assert(s[2] == 3u8);
            assert(s[3] == sn[0] && s[4] == sn[1] && s[5] == sn[2] && s[6] == sn[3]);
            lemma_le32_roundtrip(event_type_id);
        },
    }
    assert(s[2 + sk.len() as int] == v.path.len() as u8);
    assert(b[j] == v.path.len() as u8);
    assert(b.subrange(j + 1, j + 1 + v.path.len() as int) =~= v.path) by {
        assert forall|k2: int| 0 <= k2 < v.path.len() implies #[trigger] b.subrange(
            j + 1,
            j + 1 + v.path.len() as int,
        )[k2] == v.path[k2] by {
            assert(b[i + (2 + sk.len() as int + 1 + k2)] == s[2 + sk.len() as int + 1 + k2]);
            assert(s[2 + sk.len() as int + 1 + k2] == v.path[k2]);
        }
    }
}

/// Parsing is the inverse of serialization for a binding list.
pub proof fn lemma_parse_ser_bindings(b: Seq<u8>, i: int, vs: Seq<BindingV>)
    requires
        0 <= i,
        forall|k: int| 0 <= k < vs.len() ==> (#[trigger] vs[k].path).len() <= 0xFF,
        i + ser_bindings(vs).len() <= b.len(),
        b.subrange(i, i + ser_bindings(vs).len() as int) == ser_bindings(vs),
    ensures
        parse_bindings(b, i, vs.len() as int) == Ok::<(Seq<BindingV>, int), DecodeError>(
            (vs, i + ser_bindings(vs).len()),
        ),
    decreases vs.len(),
{
    if vs.len() == 0 {
        assert(vs =~= Seq::<BindingV>::empty());
    } else {
        let s0 = ser_binding(vs[0]);
        let srest = ser_bindings(vs.skip(1));
        assert(ser_bindings(vs) == s0 + srest);
        assert(b.subrange(i, i + s0.len() as int) =~= s0) by {
            assert forall|k: int| 0 <= k < s0.len() implies b[i + k] == s0[k] by {
                assert(b.subrange(i, i + ser_bindings(vs).len() as int)[k] == b[i + k]);
                assert((s0 + srest)[k] == s0[k]);
            }
        }
        lemma_parse_ser_binding(b, i, vs[0]);
        let j = i + s0.len();
        assert(b.subrange(j, j + srest.len() as int) =~= srest) by {
            assert forall|k: int| 0 <= k < srest.len() implies b[j + k] == srest[k] by {
                assert(b.subrange(i, i + ser_bindings(vs).len() as int)[s0.len() + k] == b[j + k]);
                assert((s0 + srest)[s0.len() + k] == srest[k]);
            }
        }
        assert(forall|k: int|
            0 <= k < vs.skip(1).len() ==> (#[trigger] vs.skip(1)[k].path).len() <= 0xFF);
        lemma_parse_ser_bindings(b, j, vs.skip(1));
        assert(parse_bindings(b, j, vs.len() as int - 1) == Ok::<
            (Seq<BindingV>, int),
            DecodeError,
        >((vs.skip(1), j + srest.len())));
        assert(seq![vs[0]] + vs.skip(1) =~= vs);
    }
}

/// Parsing is the inverse of serialization for one template.
pub proof fn lemma_parse_ser_template(b: Seq<u8>, i: int, t: TemplateV)
    requires
        0 <= i,
        template_fits(t),
        i + ser_template(t).len() <= b.len(),
        b.subrange(i, i + ser_template(t).len() as int) == ser_template(t),
    ensures
        parse_template(b, i) == Ok::<(TemplateV, int), DecodeError>((t, i + ser_template(t).len())),
{
    let s = ser_template(t);
    assert forall|k: int| 0 <= k < s.len() implies b[i + k] == s[k] by {
        assert(b.subrange(i, i + s.len() as int)[k] == b[i + k]);
    }
    assert(b.subrange(i, i + s.len() as int)[0] == b[i]);
    assert(b[i] == s[0]);
    let s1 = le16_bytes(t.id);
    let s2 = le32_bytes(t.html_string_id);
    let s3 = le16_bytes(t.bindings.len() as u16);
    let sb = ser_bindings(t.bindings);
    assert(s == s1 + s2 + s3 + sb);
    assert(s[0] == s1[0] && s[1] == s1[1]);
    assert(s[2] == s2[0] && s[3] == s2[1] && s[4] == s2[2] && s[5] == s2[3]);
    assert(s[6] == s3[0] && s[7] == s3[1]);
    lemma_le16_roundtrip(t.id);
    lemma_le32_roundtrip(t.html_string_id);
    lemma_le16_roundtrip(t.bindings.len() as u16);
    assert(b.subrange(i + 8, i + 8 + sb.len() as int) =~= sb) by {
        assert forall|k: int| 0 <= k < sb.len() implies b[i + 8 + k] == sb[k] by {
            assert(b[i + (8 + k)] == s[8 + k]);
            assert(s[8 + k] == sb[k]);
        }
    }
    lemma_parse_ser_bindings(b, i + 8, t.bindings);
}

/// Parsing is the inverse of serialization for the template table.
pub proof fn lemma_parse_ser_templates(b: Seq<u8>, i: int, ts: Seq<TemplateV>)
    requires
        0 <= i,
        templates_fit(ts),
        i + ser_templates(ts).len() <= b.len(),
        b.subrange(i, i + ser_templates(ts).len() as int) == ser_templates(ts),
    ensures
        parse_templates(b, i, ts.len() as int) == Ok::<(Seq<TemplateV>, int), DecodeError>(
            (ts, i + ser_templates(ts).len()),
        ),
    decreases ts.len(),
{
    if ts.len() == 0 {
        assert(ts =~= Seq::<TemplateV>::empty());
    } else {
        let s0 = ser_template(ts[0]);
        let srest = ser_templates(ts.skip(1));
        assert(ser_templates(ts) == s0 + srest);
        assert(b.subrange(i, i + s0.len() as int) =~= s0) by {
            assert forall|k: int| 0 <= k < s0.len() implies b[i + k] == s0[k] by {
                assert(b.subrange(i, i + ser_templates(ts).len() as int)[k] == b[i + k]);
                assert((s0 + srest)[k] == s0[k]);
            }
        }
        assert(template_fits(ts[0]));
        lemma_parse_ser_template(b, i, ts[0]);
        let j = i + s0.len();
        assert(b.subrange(j, j + srest.len() as int) =~= srest) by {
            assert forall|k: int| 0 <= k < srest.len() implies b[j + k] == srest[k] by {
                assert(b.subrange(i, i + ser_templates(ts).len() as int)[s0.len() + k] == b[j + k]);
                assert((s0 + srest)[s0.len() + k] == srest[k]);
            }
        }
        assert(templates_fit(ts.skip(1))) by {
            assert(forall|k: int| 0 <= k < ts.skip(1).len() ==> ts.skip(1)[k] == ts[k + 1]);
        }
        lemma_parse_ser_templates(b, j, ts.skip(1));
        assert(parse_templates(b, j, ts.len() as int - 1) == Ok::<
            (Seq<TemplateV>, int),
            DecodeError,
        >((ts.skip(1), j + srest.len())));
        assert(seq![ts[0]] + ts.skip(1) =~= ts);
    }
}

} // verus!
