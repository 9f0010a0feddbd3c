//! The two passes over the statements of a program.
//!
//! The first pass walks the statements with a running offset and binds each
//! label to the offset at which it is defined. The second pass walks them
//! again with the same offsets, puts the offsets of labels into the loads
//! that name them, and gives the instructions. The offset is a number of
//! sixteen bits: it starts again at zero after `0xffff`.
use vstd::hash_map::StringHashMap;
use vstd::prelude::*;
use vstd::utf8::encode_utf8_decode_utf8;
use crate::expr::{data_instructions, label_key, Expr, ExprView};
use crate::instruction::Instruction;
use crate::utils::{after, lemma_after_append, lemma_after_nothing, Error, ErrorView};

verus! {

/// The offset that follows `offset` after `len` more bytes.
pub open spec fn spec_advance(offset: u16, len: nat) -> u16 {
    ((offset + len) % 0x1_0000) as u16
}

/// The offset at which statement `i` lies: the length of the statements
/// before it, within sixteen bits.
pub open spec fn offset_at(exprs: Seq<ExprView>, i: int) -> u16
    decreases i,
{
    if i <= 0 {
        0
    } else {
        spec_advance(offset_at(exprs, i - 1), exprs[i - 1].len())
    }
}

/// The labels that the first `i` statements define, each with the offset at
/// which it is defined. Of two definitions of one label the later one counts.
pub open spec fn symbols_upto(exprs: Seq<ExprView>, i: int) -> Map<Seq<char>, u16>
    decreases i,
{
    if i <= 0 {
        Map::empty()
    } else {
        let before = symbols_upto(exprs, i - 1);
        match exprs[i - 1] {
            ExprView::IdentifierDef(name) => before.insert(
                label_key(name),
                offset_at(exprs, i - 1),
            ),
            _ => before,
        }
    }
}

/// The symbol table of a program.
pub open spec fn spec_symbols(exprs: Seq<ExprView>) -> Map<Seq<char>, u16> {
    symbols_upto(exprs, exprs.len() as int)
}

/// The instructions of the statements from index `i` on, with the labels
/// that `symbols` holds. The first load of a label that `symbols` does not
/// hold makes the whole result an error.
pub open spec fn resolve_from(exprs: Seq<ExprView>, symbols: Map<Seq<char>, u16>, i: int) -> Result<
    Seq<Instruction>,
    ErrorView,
>
    decreases exprs.len() - i,
{
    if i < 0 || i >= exprs.len() {
        Ok(Seq::empty())
    } else {
        match exprs[i].to_instructions(symbols, offset_at(exprs, i)) {
            Ok(instructions) => after(instructions, resolve_from(exprs, symbols, i + 1)),
            Err(e) => Err(e),
        }
    }
}

/// The instructions of a program.
pub open spec fn spec_resolve(exprs: Seq<ExprView>, symbols: Map<Seq<char>, u16>) -> Result<
    Seq<Instruction>,
    ErrorView,
> {
    resolve_from(exprs, symbols, 0)
}

/// The encodings of the instructions, one after the other.
pub open spec fn encode_all(instructions: Seq<Instruction>) -> Seq<u8>
    decreases instructions.len(),
{
    if instructions.len() == 0 {
        Seq::empty()
    } else {
        encode_all(instructions.drop_last()) + instructions.last().encoding()
    }
}

/// The bytes of a program whose labels have the offsets that `symbols`
/// gives, or the error of the first load of a label that `symbols` does not
/// hold.
pub open spec fn spec_encode(exprs: Seq<ExprView>, symbols: Map<Seq<char>, u16>) -> Result<
    Seq<u8>,
    ErrorView,
> {
    match spec_resolve(exprs, symbols) {
        Ok(instructions) => Ok(encode_all(instructions)),
        Err(e) => Err(e),
    }
}

/// The length of the first `i` statements together.
pub open spec fn length_upto(exprs: Seq<ExprView>, i: int) -> nat
    decreases i,
{
    if i <= 0 {
        0
    } else {
        length_upto(exprs, i - 1) + exprs[i - 1].len()
    }
}

/// The length of all statements together, as the first pass counts it.
pub open spec fn total_len(exprs: Seq<ExprView>) -> nat {
    length_upto(exprs, exprs.len() as int)
}

/// Moves the offset over `len` bytes.
pub fn advance(offset: u16, len: usize) -> (next: u16)
    ensures
        next == spec_advance(offset, len as nat),
{
    let step: usize = len % 0x1_0000;
    let sum: usize = offset as usize + step;
    (sum % 0x1_0000) as u16
}

/// The first pass: binds every label to the offset at which it is defined.
pub fn build(exprs: &Vec<Expr>) -> (symbols: StringHashMap<u16>)
    ensures
        symbols@ == spec_symbols(exprs.deep_view()),
{
    let mut identifiers: StringHashMap<u16> = StringHashMap::new();
    let mut offset: u16 = 0;
    let mut i: usize = 0;
    let ghost views = exprs.deep_view();
    while i < exprs.len()
        invariant
            i <= exprs.len(),
            views == exprs.deep_view(),
            offset == offset_at(views, i as int),
            identifiers@ == symbols_upto(views, i as int),
        decreases exprs.len() - i,
    {
        let expr = &exprs[i];
        assert(views[i as int] == expr@);
        match expr {
            Expr::IdentifierDef(ident) => {
                proof {
                    encode_utf8_decode_utf8(ident@);
                }
                identifiers.insert(ident.clone(), offset);
            },
            _ => {},
        }
        offset = advance(offset, expr.len());
        i += 1;
    }
    identifiers
}

/// The second pass: gives the instructions of the statements, with the
/// offsets of `identifiers` in place of the labels.
pub fn resolve_all(exprs: &Vec<Expr>, identifiers: &StringHashMap<u16>) -> (r: Result<
    Vec<Instruction>,
    Error,
>)
    ensures
        match spec_resolve(exprs.deep_view(), identifiers@) {
            Ok(instructions) => r is Ok && r->Ok_0@ == instructions,
            Err(e) => r is Err && r->Err_0@ == e,
        },
{
    let mut res: Vec<Instruction> = Vec::new();
    let mut offset: u16 = 0;
    let mut i: usize = 0;
    let ghost views = exprs.deep_view();
    let ghost symbols = identifiers@;
    proof {
        assert(Seq::<Instruction>::empty() + resolve_from(views, symbols, 0)->Ok_0
            =~= resolve_from(views, symbols, 0)->Ok_0);
    }
    while i < exprs.len()
        invariant
            i <= exprs.len(),
            views == exprs.deep_view(),
            symbols == identifiers@,
            offset == offset_at(views, i as int),
            spec_resolve(views, symbols) == after(res@, resolve_from(views, symbols, i as int)),
        decreases exprs.len() - i,
    {
        let expr = &exprs[i];
        assert(views[i as int] == expr@);
        let mut part = match expr.to_instructions(identifiers, offset) {
            Ok(part) => part,
            Err(e) => {
                return Err(e);
            },
        };
        proof {
            lemma_after_append(res@, part@, resolve_from(views, symbols, i + 1));
        }
        res.append(&mut part);
        offset = advance(offset, expr.len());
        i += 1;
    }
    proof {
        lemma_after_nothing::<Instruction, ErrorView>(res@);
    }
    Ok(res)
}

/// Encodes the instructions one after the other.
pub fn encode_instructions(instructions: &Vec<Instruction>) -> (bytes: Vec<u8>)
    ensures
        bytes@ == encode_all(instructions@),
{
    let mut bytes: Vec<u8> = Vec::new();
    let mut i: usize = 0;
    while i < instructions.len()
        invariant
            i <= instructions.len(),
            bytes@ == encode_all(instructions@.take(i as int)),
        decreases instructions.len() - i,
    {
        proof {
            assert(instructions@.take(i + 1).drop_last() =~= instructions@.take(i as int));
        }
        instructions[i].encode(&mut bytes);
        i += 1;
    }
    proof {
        assert(instructions@.take(i as int) =~= instructions@);
    }
    bytes
}

/// The second pass with the encoding of its instructions: gives the bytes of
/// the statements, with the offsets of `identifiers` in place of the labels.
/// A load of a label that `identifiers` does not hold fails, and then there
/// is no output at all. The output is as long as the statements are
/// together.
pub fn encode(exprs: &Vec<Expr>, identifiers: &StringHashMap<u16>) -> (r: Result<Vec<u8>, Error>)
    ensures
        match spec_encode(exprs.deep_view(), identifiers@) {
            Ok(bytes) => r is Ok && r->Ok_0@ == bytes && bytes.len() == total_len(
                exprs.deep_view(),
            ),
            Err(e) => r is Err && r->Err_0@ == e,
        },
{
    proof {
        if spec_resolve(exprs.deep_view(), identifiers@) is Ok {
            lemma_output_length(exprs.deep_view(), identifiers@);
        }
    }
    match resolve_all(exprs, identifiers) {
        Ok(instructions) => Ok(encode_instructions(&instructions)),
        Err(e) => Err(e),
    }
}

/// The running offset is the length of the statements so far, within
/// sixteen bits: both passes see every statement at the same offset.
pub proof fn lemma_offset_is_length(exprs: Seq<ExprView>, i: int)
    ensures
        offset_at(exprs, i) == length_upto(exprs, i) % 0x1_0000,
    decreases i,
{
    if i > 0 {
        lemma_offset_is_length(exprs, i - 1);
    }
}

/// The encoding of two runs of instructions is the encoding of the first
/// followed by that of the second.
pub proof fn lemma_encode_all_concat(a: Seq<Instruction>, b: Seq<Instruction>)
    ensures
        encode_all(a + b) == encode_all(a) + encode_all(b),
    decreases b.len(),
{
    if b.len() == 0 {
        assert(a + b =~= a);
        assert(encode_all(a) + encode_all(b) =~= encode_all(a));
    } else {
        assert((a + b).drop_last() =~= a + b.drop_last());
        assert((a + b).last() == b.last());
        lemma_encode_all_concat(a, b.drop_last());
        assert((encode_all(a) + encode_all(b.drop_last())) + b.last().encoding() =~= encode_all(a)
            + (encode_all(b.drop_last()) + b.last().encoding()));
    }
}

/// Data bytes are encoded one to one.
proof fn lemma_data_length(bytes: Seq<u8>)
    ensures
        encode_all(data_instructions(bytes)).len() == bytes.len(),
    decreases bytes.len(),
{
    if bytes.len() > 0 {
        assert(data_instructions(bytes).drop_last() =~= data_instructions(bytes.drop_last()));
        lemma_data_length(bytes.drop_last());
    }
}

/// A statement gives as many bytes as the first pass counts for it, at
/// whatever offset it lies and whatever the labels are.
pub proof fn lemma_statement_length(e: ExprView, symbols: Map<Seq<char>, u16>, offset: u16)
    requires
        e.to_instructions(symbols, offset) is Ok,
    ensures
        encode_all(e.to_instructions(symbols, offset)->Ok_0).len() == e.len(),
{
    let instructions = e.to_instructions(symbols, offset)->Ok_0;
    match e {
        ExprView::DB(bytes) => {
            lemma_data_length(bytes);
        },
        ExprView::IdentifierDef(_) => {},
        _ => {
            assert(instructions.len() == 1);
            assert(instructions.drop_last() =~= Seq::<Instruction>::empty());
            assert(encode_all(Seq::<Instruction>::empty()) =~= Seq::<u8>::empty());
            assert(encode_all(instructions) =~= instructions.last().encoding());
        },
    }
}

/// The statements from index `i` on give as many bytes as the first pass
/// counts for them.
proof fn lemma_resolved_length_from(exprs: Seq<ExprView>, symbols: Map<Seq<char>, u16>, i: int)
    requires
        0 <= i <= exprs.len(),
        resolve_from(exprs, symbols, i) is Ok,
    ensures
        encode_all(resolve_from(exprs, symbols, i)->Ok_0).len() + length_upto(exprs, i)
            == total_len(exprs),
    decreases exprs.len() - i,
{
    if i < exprs.len() {
        let part = exprs[i].to_instructions(symbols, offset_at(exprs, i))->Ok_0;
        let rest = resolve_from(exprs, symbols, i + 1)->Ok_0;
        lemma_statement_length(exprs[i], symbols, offset_at(exprs, i));
        lemma_resolved_length_from(exprs, symbols, i + 1);
        lemma_encode_all_concat(part, rest);
    }
}

/// The output of a program is as long as the lengths that the first pass
/// counts for its statements, taken together.
pub proof fn lemma_output_length(exprs: Seq<ExprView>, symbols: Map<Seq<char>, u16>)
    requires
        spec_resolve(exprs, symbols) is Ok,
    ensures
        encode_all(spec_resolve(exprs, symbols)->Ok_0).len() == total_len(exprs),
{
    lemma_resolved_length_from(exprs, symbols, 0);
}

/// The instructions of well-formed statements from index `i` on are well
/// formed.
proof fn lemma_resolved_wf_from(exprs: Seq<ExprView>, symbols: Map<Seq<char>, u16>, i: int)
    requires
        0 <= i <= exprs.len(),
        forall|k: int| 0 <= k < exprs.len() ==> (#[trigger] exprs[k]).wf(),
        resolve_from(exprs, symbols, i) is Ok,
    ensures
        forall|k: int|
            0 <= k < resolve_from(exprs, symbols, i)->Ok_0.len() ==> (#[trigger] resolve_from(
                exprs,
                symbols,
                i,
            )->Ok_0[k]).wf(),
    decreases exprs.len() - i,
{
    if i < exprs.len() {
        lemma_resolved_wf_from(exprs, symbols, i + 1);
        assert(exprs[i].wf());
    }
}

/// The instructions of well-formed statements are well formed.
pub proof fn lemma_resolved_wf(exprs: Seq<ExprView>, symbols: Map<Seq<char>, u16>)
    requires
        forall|k: int| 0 <= k < exprs.len() ==> (#[trigger] exprs[k]).wf(),
        spec_resolve(exprs, symbols) is Ok,
    ensures
        forall|k: int|
            0 <= k < spec_resolve(exprs, symbols)->Ok_0.len() ==> (#[trigger] spec_resolve(
                exprs,
                symbols,
            )->Ok_0[k]).wf(),
{
    lemma_resolved_wf_from(exprs, symbols, 0);
}

/// Whether every label that a statement from index `i` on loads is one that
/// `symbols` holds.
pub open spec fn labels_defined_from(
    exprs: Seq<ExprView>,
    symbols: Map<Seq<char>, u16>,
    i: int,
) -> bool {
    forall|k: int|
        i <= k < exprs.len() ==> match #[trigger] exprs[k] {
            ExprView::MovC2R(name, _, _) => symbols.dom().contains(label_key(name)),
            _ => true,
        }
}

/// The second pass succeeds from index `i` on exactly where the labels
/// loaded from there on are defined.
proof fn lemma_resolve_from_succeeds(exprs: Seq<ExprView>, symbols: Map<Seq<char>, u16>, i: int)
    requires
        0 <= i <= exprs.len(),
    ensures
        resolve_from(exprs, symbols, i) is Ok <==> labels_defined_from(exprs, symbols, i),
        resolve_from(exprs, symbols, i) is Err ==> resolve_from(exprs, symbols, i)->Err_0
            is NoSuchIdentifier,
    decreases exprs.len() - i,
{
    if i < exprs.len() {
        lemma_resolve_from_succeeds(exprs, symbols, i + 1);
        if labels_defined_from(exprs, symbols, i) {
            assert(exprs[i].to_instructions(symbols, offset_at(exprs, i)) is Ok);
        }
        if resolve_from(exprs, symbols, i) is Ok {
            assert forall|k: int| i <= k < exprs.len() implies match #[trigger] exprs[k] {
                ExprView::MovC2R(name, _, _) => symbols.dom().contains(label_key(name)),
                _ => true,
            } by {
                if k > i {
                    assert(labels_defined_from(exprs, symbols, i + 1));
                }
            }
        }
    }
}

/// The second pass succeeds exactly where the symbol table holds every
/// label that a statement loads, and fails with `NoSuchIdentifier` and
/// nothing else.
pub proof fn lemma_resolve_succeeds(exprs: Seq<ExprView>, symbols: Map<Seq<char>, u16>)
    ensures
        spec_resolve(exprs, symbols) is Ok <==> labels_defined_from(exprs, symbols, 0),
        spec_resolve(exprs, symbols) is Err ==> spec_resolve(exprs, symbols)->Err_0
            is NoSuchIdentifier,
{
    lemma_resolve_from_succeeds(exprs, symbols, 0);
}

/// A label has the offset of the statement that defines it last.
pub proof fn lemma_last_definition_counts(exprs: Seq<ExprView>, i: int, n: int)
    requires
        0 <= i < n <= exprs.len(),
        exprs[i] is IdentifierDef,
        forall|k: int|
            i < k < n ==> match #[trigger] exprs[k] {
                ExprView::IdentifierDef(name) => label_key(name) != label_key(
                    exprs[i]->IdentifierDef_0,
                ),
                _ => true,
            },
    ensures
        symbols_upto(exprs, n).dom().contains(label_key(exprs[i]->IdentifierDef_0)),
        symbols_upto(exprs, n)[label_key(exprs[i]->IdentifierDef_0)] == offset_at(exprs, i),
    decreases n - i,
{
    if n > i + 1 {
        lemma_last_definition_counts(exprs, i, n - 1);
        assert(match exprs[n - 1] {
            ExprView::IdentifierDef(name) => label_key(name) != label_key(
                exprs[i]->IdentifierDef_0,
            ),
            _ => true,
        });
    }
}

} // verus!
