//! The grammar of SwIPC files over their tokens, and the items it gives, by
//! value. Each production reads tokens from a position and gives what it
//! read with the position after it, or nothing when the tokens do not follow
//! it; the parser computes exactly these.

use vstd::prelude::*;
use vstd::string::StringSliceAdditionalSpecFns;
use crate::swipc::diagnostics::Span;
use crate::swipc::lexer::{Token, TokenKind, token_text};
use crate::swipc::model::{
    ArgValue, Bitflags, BitflagsArm, BufferExtraAttrs, BufferTransferMode, Command, Enum, EnumArm,
    HandleTransferType, IdentView, IntType, Interface, IpcFileItem, NominalType, Struct, StructField, StructMarker,
    TypeAlias, last_pref, pref_count,
};

verus! {

/// A type as it is written, by value.
pub enum NominalView {
    Int(IntType),
    Bool,
    F32,
    Bytes { size: u64, alignment: u64 },
    Unknown { size: Option<u64> },
    TypeName { name: IdentView, reference_location: Span },
}

impl View for NominalType {
    type V = NominalView;

    open spec fn view(&self) -> NominalView {
        match self {
            NominalType::Int(i) => NominalView::Int(*i),
            NominalType::Bool => NominalView::Bool,
            NominalType::F32 => NominalView::F32,
            NominalType::Bytes { size, alignment } => NominalView::Bytes { size: *size, alignment: *alignment },
            NominalType::Unknown { size } => NominalView::Unknown { size: *size },
            NominalType::TypeName { name, reference_location } => NominalView::TypeName {
                name: name@,
                reference_location: *reference_location,
            },
        }
    }
}

/// An argument of a command, by value.
pub enum ArgView {
    ClientProcessId,
    In(NominalView),
    Out(NominalView),
    InObject(IdentView, Span),
    OutObject(Option<IdentView>, Span),
    InHandle(HandleTransferType),
    OutHandle(HandleTransferType),
    InArray(NominalView, Option<BufferTransferMode>),
    OutArray(NominalView, Option<BufferTransferMode>),
    InBuffer(BufferTransferMode, BufferExtraAttrs),
    OutBuffer(BufferTransferMode, BufferExtraAttrs),
}

impl View for ArgValue {
    type V = ArgView;

    open spec fn view(&self) -> ArgView {
        match self {
            ArgValue::ClientProcessId => ArgView::ClientProcessId,
            ArgValue::In(t) => ArgView::In(t@),
            ArgValue::Out(t) => ArgView::Out(t@),
            ArgValue::InObject(n, l) => ArgView::InObject(n@, *l),
            ArgValue::OutObject(n, l) => ArgView::OutObject(
                match n {
                    Some(n) => Some(n@),
                    None => None,
                },
                *l,
            ),
            ArgValue::InHandle(h) => ArgView::InHandle(*h),
            ArgValue::OutHandle(h) => ArgView::OutHandle(*h),
            ArgValue::InArray(t, m) => ArgView::InArray(t@, *m),
            ArgValue::OutArray(t, m) => ArgView::OutArray(t@, *m),
            ArgValue::InBuffer(m, a) => ArgView::InBuffer(*m, *a),
            ArgValue::OutBuffer(m, a) => ArgView::OutBuffer(*m, *a),
        }
    }
}

/// A field of a structure, by value.
pub struct FieldView {
    pub name: Seq<u8>,
    pub ty: NominalView,
    pub location: Span,
}

impl View for StructField {
    type V = FieldView;

    open spec fn view(&self) -> FieldView {
        FieldView { name: self.name@, ty: self.ty@, location: self.location }
    }
}

/// A structure definition, by value.
pub struct StructView {
    pub name: IdentView,
    pub is_large_data: bool,
    pub preferred_transfer_mode: Option<BufferTransferMode>,
    pub fields: Seq<FieldView>,
    pub location: Span,
}

impl View for Struct {
    type V = StructView;

    open spec fn view(&self) -> StructView {
        StructView {
            name: self.name@,
            is_large_data: self.is_large_data,
            preferred_transfer_mode: self.preferred_transfer_mode,
            fields: self.fields@.map_values(|f: StructField| f@),
            location: self.location,
        }
    }
}

/// An arm of an enum or bitflags definition, by value.
pub struct ArmView {
    pub name: Seq<u8>,
    pub value: u64,
    pub location: Span,
}

impl View for EnumArm {
    type V = ArmView;

    open spec fn view(&self) -> ArmView {
        ArmView { name: self.name@, value: self.value, location: self.location }
    }
}

impl View for BitflagsArm {
    type V = ArmView;

    open spec fn view(&self) -> ArmView {
        ArmView { name: self.name@, value: self.value, location: self.location }
    }
}

/// An enum or bitflags definition, by value.
pub struct EnumView {
    pub name: IdentView,
    pub base_type: IntType,
    pub arms: Seq<ArmView>,
    pub location: Span,
}

impl View for Enum {
    type V = EnumView;

    open spec fn view(&self) -> EnumView {
        EnumView {
            name: self.name@,
            base_type: self.base_type,
            arms: self.arms@.map_values(|a: EnumArm| a@),
            location: self.location,
        }
    }
}

impl View for Bitflags {
    type V = EnumView;

    open spec fn view(&self) -> EnumView {
        EnumView {
            name: self.name@,
            base_type: self.base_type,
            arms: self.arms@.map_values(|a: BitflagsArm| a@),
            location: self.location,
        }
    }
}

/// An argument of a command, with its name if it has one, by value.
pub open spec fn argument_view(a: (Option<Vec<u8>>, ArgValue)) -> (Option<Seq<u8>>, ArgView) {
    (
        match a.0 {
            Some(n) => Some(n@),
            None => None,
        },
        a.1@,
    )
}

/// A command, by value.
pub struct CommandView {
    pub id: u32,
    pub name: Seq<u8>,
    pub arguments: Seq<(Option<Seq<u8>>, ArgView)>,
    pub location: Span,
}

impl View for Command {
    type V = CommandView;

    open spec fn view(&self) -> CommandView {
        CommandView {
            id: self.id,
            name: self.name@,
            arguments: self.arguments@.map_values(|a: (Option<Vec<u8>>, ArgValue)| argument_view(a)),
            location: self.location,
        }
    }
}

/// An interface definition, by value.
pub struct InterfaceView {
    pub name: IdentView,
    pub is_domain: bool,
    pub sm_names: Seq<Seq<u8>>,
    pub commands: Seq<CommandView>,
    pub location: Span,
}

impl View for Interface {
    type V = InterfaceView;

    open spec fn view(&self) -> InterfaceView {
        InterfaceView {
            name: self.name@,
            is_domain: self.is_domain,
            sm_names: self.sm_names@.map_values(|n: Vec<u8>| n@),
            commands: self.commands@.map_values(|c: Command| c@),
            location: self.location,
        }
    }
}

/// A type alias, by value.
pub struct AliasView {
    pub name: IdentView,
    pub referenced_type: NominalView,
    pub location: Span,
}

impl View for TypeAlias {
    type V = AliasView;

    open spec fn view(&self) -> AliasView {
        AliasView { name: self.name@, referenced_type: self.referenced_type@, location: self.location }
    }
}

/// A top-level item, by value.
pub enum ItemView {
    TypeAlias(AliasView),
    StructDef(StructView),
    EnumDef(EnumView),
    BitflagsDef(EnumView),
    InterfaceDef(InterfaceView),
}

impl View for IpcFileItem {
    type V = ItemView;

    open spec fn view(&self) -> ItemView {
        match self {
            IpcFileItem::TypeAlias(a) => ItemView::TypeAlias(a@),
            IpcFileItem::StructDef(s) => ItemView::StructDef(s@),
            IpcFileItem::EnumDef(e) => ItemView::EnumDef(e@),
            IpcFileItem::BitflagsDef(b) => ItemView::BitflagsDef(b@),
            IpcFileItem::InterfaceDef(i) => ItemView::InterfaceDef(i@),
        }
    }
}

/// The tokens of a source file, the source, and the file's id.
pub struct Input {
    pub src: Seq<u8>,
    pub toks: Seq<Token>,
    pub file_id: usize,
}

/// The token at `p` is the identifier `kw`.
pub open spec fn kw_at(inp: Input, p: int, kw: Seq<u8>) -> bool {
    0 <= p < inp.toks.len() && inp.toks[p].kind == TokenKind::Ident && token_text(inp.src, inp.toks[p]) == kw
}

/// The token at `p` is the punctuation byte `c`.
pub open spec fn punct_at(inp: Input, p: int, c: u8) -> bool {
    0 <= p < inp.toks.len() && inp.toks[p].kind == TokenKind::Punct(c)
}

/// The token at `p` is `::`.
pub open spec fn sep_at(inp: Input, p: int) -> bool {
    0 <= p < inp.toks.len() && inp.toks[p].kind == TokenKind::PathSep
}

/// The tokens at `p` are `sf`, `::` and the identifier `kw`.
pub open spec fn sf_at(inp: Input, p: int, kw: Seq<u8>) -> bool {
    kw_at(inp, p, "sf".spec_bytes()) && sep_at(inp, p + 1) && kw_at(inp, p + 2, kw)
}

/// The span from the start of token `first` to the end of token `last - 1`.
pub open spec fn span_of(inp: Input, first: int, last: int) -> Span {
    Span { file_id: inp.file_id, left: inp.toks[first].start, right: inp.toks[last - 1].end }
}

/// An identifier.
pub open spec fn ident_g(inp: Input, p: int) -> Option<(Seq<u8>, int)> {
    if 0 <= p < inp.toks.len() && inp.toks[p].kind == TokenKind::Ident {
        Some((token_text(inp.src, inp.toks[p]), p + 1))
    } else {
        None
    }
}

/// A number.
pub open spec fn number_g(inp: Input, p: int) -> Option<(u64, int)> {
    if 0 <= p < inp.toks.len() && inp.toks[p].kind is Number {
        Some((inp.toks[p].kind->Number_0, p + 1))
    } else {
        None
    }
}

/// The rest of a path after its parts so far, the last one being `last`.
pub open spec fn path_rest_g(inp: Input, p: int, parts: Seq<Seq<u8>>, last: Seq<u8>) -> Option<(IdentView, int)>
    decreases inp.toks.len() - p,
{
    if sep_at(inp, p) {
        match ident_g(inp, p + 1) {
            Some((n, q)) => path_rest_g(inp, q, parts.push(last), n),
            None => None,
        }
    } else {
        Some((IdentView { namespace: parts, ident: last }, p))
    }
}

/// `a::b::C`.
pub open spec fn path_g(inp: Input, p: int) -> Option<(IdentView, int)> {
    match ident_g(inp, p) {
        Some((n, q)) => path_rest_g(inp, q, Seq::empty(), n),
        None => None,
    }
}

/// The integer type named at `p`: `u8` to `u64`, `s8` or `i8` to `s64` or `i64`.
#[verifier::opaque]
pub open spec fn int_type_g(inp: Input, p: int) -> Option<IntType> {
    if kw_at(inp, p, "u8".spec_bytes()) {
        Some(IntType::U8)
    } else if kw_at(inp, p, "u16".spec_bytes()) {
        Some(IntType::U16)
    } else if kw_at(inp, p, "u32".spec_bytes()) {
        Some(IntType::U32)
    } else if kw_at(inp, p, "u64".spec_bytes()) {
        Some(IntType::U64)
    } else if kw_at(inp, p, "s8".spec_bytes()) || kw_at(inp, p, "i8".spec_bytes()) {
        Some(IntType::I8)
    } else if kw_at(inp, p, "s16".spec_bytes()) || kw_at(inp, p, "i16".spec_bytes()) {
        Some(IntType::I16)
    } else if kw_at(inp, p, "s32".spec_bytes()) || kw_at(inp, p, "i32".spec_bytes()) {
        Some(IntType::I32)
    } else if kw_at(inp, p, "s64".spec_bytes()) || kw_at(inp, p, "i64".spec_bytes()) {
        Some(IntType::I64)
    } else {
        None
    }
}

/// `sf::Bytes<size>` or `sf::Bytes<size, alignment>`, after `sf::Bytes` at `p`.
#[verifier::opaque]
pub open spec fn bytes_args_g(inp: Input, p: int) -> Option<(NominalView, int)> {
    if punct_at(inp, p, 60) {
        match number_g(inp, p + 1) {
            Some((size, q)) => if punct_at(inp, q, 44) {
                match number_g(inp, q + 1) {
                    Some((alignment, r)) => if punct_at(inp, r, 62) {
                        Some((NominalView::Bytes { size, alignment }, r + 1))
                    } else {
                        None
                    },
                    None => None,
                }
            } else if punct_at(inp, q, 62) {
                Some((NominalView::Bytes { size, alignment: 1 }, q + 1))
            } else {
                None
            },
            None => None,
        }
    } else {
        None
    }
}

/// A type as it is written: an integer type, `bool`, `f32`, `sf::Bytes<..>`,
/// `sf::Unknown` with an optional size, or the name of a defined type.
#[verifier::opaque]
pub open spec fn nominal_g(inp: Input, p: int) -> Option<(NominalView, int)> {
    if int_type_g(inp, p) is Some {
        Some((NominalView::Int(int_type_g(inp, p)->0), p + 1))
    } else if kw_at(inp, p, "bool".spec_bytes()) {
        Some((NominalView::Bool, p + 1))
    } else if kw_at(inp, p, "f32".spec_bytes()) {
        Some((NominalView::F32, p + 1))
    } else if sf_at(inp, p, "Bytes".spec_bytes()) {
        bytes_args_g(inp, p + 3)
    } else if sf_at(inp, p, "Unknown".spec_bytes()) {
        if punct_at(inp, p + 3, 60) {
            match number_g(inp, p + 4) {
                Some((size, q)) => if punct_at(inp, q, 62) {
                    Some((NominalView::Unknown { size: Some(size) }, q + 1))
                } else {
                    None
                },
                None => None,
            }
        } else {
            Some((NominalView::Unknown { size: None }, p + 3))
        }
    } else {
        match path_g(inp, p) {
            Some((name, q)) => Some((NominalView::TypeName { name, reference_location: span_of(inp, p, q) }, q)),
            None => None,
        }
    }
}

/// `'<' type '>'`.
#[verifier::opaque]
pub open spec fn angle_nominal_g(inp: Input, p: int) -> Option<(NominalView, int)> {
    if punct_at(inp, p, 60) {
        match nominal_g(inp, p + 1) {
            Some((t, q)) => if punct_at(inp, q, 62) {
                Some((t, q + 1))
            } else {
                None
            },
            None => None,
        }
    } else {
        None
    }
}

/// `sf::SharedPointer` at `p` with an optional `<Interface>`.
#[verifier::opaque]
pub open spec fn shared_pointer_g(inp: Input, p: int) -> Option<(Option<IdentView>, int)> {
    if !punct_at(inp, p + 3, 60) {
        Some((None, p + 3))
    } else {
        match path_g(inp, p + 4) {
            Some((n, q)) => if punct_at(inp, q, 62) {
                Some((Some(n), q + 1))
            } else {
                None
            },
            None => None,
        }
    }
}

/// A handle at `p`, with or without `sf::`: whether it is an output, how it
/// is transferred, and where it ends.
#[verifier::opaque]
pub open spec fn handle_g(inp: Input, p: int) -> Option<(bool, HandleTransferType, int)> {
    let q = if kw_at(inp, p, "sf".spec_bytes()) && sep_at(inp, p + 1) {
        p + 2
    } else {
        p
    };
    if kw_at(inp, q, "CopyHandle".spec_bytes()) {
        Some((false, HandleTransferType::Copy, q + 1))
    } else if kw_at(inp, q, "MoveHandle".spec_bytes()) {
        Some((false, HandleTransferType::Move, q + 1))
    } else if kw_at(inp, q, "OutCopyHandle".spec_bytes()) {
        Some((true, HandleTransferType::Copy, q + 1))
    } else if kw_at(inp, q, "OutMoveHandle".spec_bytes()) {
        Some((true, HandleTransferType::Move, q + 1))
    } else {
        None
    }
}

/// An array at `p`: whether it is an output, and its transfer mode.
#[verifier::opaque]
pub open spec fn array_g(inp: Input, p: int) -> Option<(bool, Option<BufferTransferMode>)> {
    if sf_at(inp, p, "InArray".spec_bytes()) {
        Some((false, None))
    } else if sf_at(inp, p, "InMapAliasArray".spec_bytes()) {
        Some((false, Some(BufferTransferMode::MapAlias)))
    } else if sf_at(inp, p, "InPointerArray".spec_bytes()) {
        Some((false, Some(BufferTransferMode::Pointer)))
    } else if sf_at(inp, p, "InAutoSelectArray".spec_bytes()) {
        Some((false, Some(BufferTransferMode::AutoSelect)))
    } else if sf_at(inp, p, "OutArray".spec_bytes()) {
        Some((true, None))
    } else if sf_at(inp, p, "OutMapAliasArray".spec_bytes()) {
        Some((true, Some(BufferTransferMode::MapAlias)))
    } else if sf_at(inp, p, "OutPointerArray".spec_bytes()) {
        Some((true, Some(BufferTransferMode::Pointer)))
    } else if sf_at(inp, p, "OutAutoSelectArray".spec_bytes()) {
        Some((true, Some(BufferTransferMode::AutoSelect)))
    } else {
        None
    }
}

/// A buffer at `p`: whether it is an output, its transfer mode and its extra
/// attributes.
#[verifier::opaque]
pub open spec fn buffer_g(inp: Input, p: int) -> Option<(bool, BufferTransferMode, BufferExtraAttrs)> {
    let out = sf_at(inp, p, "OutBuffer".spec_bytes()) || sf_at(inp, p, "OutMapAliasBuffer".spec_bytes()) || sf_at(
        inp,
        p,
        "OutPointerBuffer".spec_bytes(),
    ) || sf_at(inp, p, "OutAutoSelectBuffer".spec_bytes()) || sf_at(inp, p, "OutNonSecureBuffer".spec_bytes())
        || sf_at(inp, p, "OutNonDeviceBuffer".spec_bytes()) || sf_at(inp, p, "OutNonSecureAutoSelectBuffer".spec_bytes());
    if sf_at(inp, p, "InBuffer".spec_bytes()) || sf_at(inp, p, "OutBuffer".spec_bytes()) || sf_at(
        inp,
        p,
        "InMapAliasBuffer".spec_bytes(),
    ) || sf_at(inp, p, "OutMapAliasBuffer".spec_bytes()) {
        Some((out, BufferTransferMode::MapAlias, BufferExtraAttrs::NoAttrs))
    } else if sf_at(inp, p, "InPointerBuffer".spec_bytes()) || sf_at(inp, p, "OutPointerBuffer".spec_bytes()) {
        Some((out, BufferTransferMode::Pointer, BufferExtraAttrs::NoAttrs))
    } else if sf_at(inp, p, "InAutoSelectBuffer".spec_bytes()) || sf_at(inp, p, "OutAutoSelectBuffer".spec_bytes()) {
        Some((out, BufferTransferMode::AutoSelect, BufferExtraAttrs::NoAttrs))
    } else if sf_at(inp, p, "InNonSecureBuffer".spec_bytes()) || sf_at(inp, p, "OutNonSecureBuffer".spec_bytes()) {
        Some((out, BufferTransferMode::MapAlias, BufferExtraAttrs::AllowNonSecure))
    } else if sf_at(inp, p, "InNonDeviceBuffer".spec_bytes()) || sf_at(inp, p, "OutNonDeviceBuffer".spec_bytes()) {
        Some((out, BufferTransferMode::MapAlias, BufferExtraAttrs::AllowNonDevice))
    } else if sf_at(inp, p, "InNonSecureAutoSelectBuffer".spec_bytes()) || sf_at(
        inp,
        p,
        "OutNonSecureAutoSelectBuffer".spec_bytes(),
    ) {
        Some((out, BufferTransferMode::AutoSelect, BufferExtraAttrs::AllowNonSecure))
    } else {
        None
    }
}

/// `sf::Out<..>` at `p`: an object or a value.
#[verifier::opaque]
pub open spec fn out_value_g(inp: Input, p: int) -> Option<(ArgView, int)> {
    if !punct_at(inp, p + 3, 60) {
        None
    } else if sf_at(inp, p + 4, "SharedPointer".spec_bytes()) {
        match shared_pointer_g(inp, p + 4) {
            Some((name, q)) => if punct_at(inp, q, 62) {
                Some((ArgView::OutObject(name, span_of(inp, p, q + 1)), q + 1))
            } else {
                None
            },
            None => None,
        }
    } else {
        match nominal_g(inp, p + 4) {
            Some((t, q)) => if punct_at(inp, q, 62) {
                Some((ArgView::Out(t), q + 1))
            } else {
                None
            },
            None => None,
        }
    }
}

/// The value of a command argument.
#[verifier::opaque]
pub open spec fn value_g(inp: Input, p: int) -> Option<(ArgView, int)> {
    if sf_at(inp, p, "ClientProcessId".spec_bytes()) {
        Some((ArgView::ClientProcessId, p + 3))
    } else if handle_g(inp, p) is Some {
        let (out, t, q) = handle_g(inp, p)->0;
        Some((if out { ArgView::OutHandle(t) } else { ArgView::InHandle(t) }, q))
    } else if sf_at(inp, p, "SharedPointer".spec_bytes()) {
        match shared_pointer_g(inp, p) {
            Some((Some(n), q)) => Some((ArgView::InObject(n, span_of(inp, p, q)), q)),
            _ => None,
        }
    } else if sf_at(inp, p, "Out".spec_bytes()) {
        out_value_g(inp, p)
    } else if array_g(inp, p) is Some {
        let (out, mode) = array_g(inp, p)->0;
        match angle_nominal_g(inp, p + 3) {
            Some((t, q)) => Some((if out { ArgView::OutArray(t, mode) } else { ArgView::InArray(t, mode) }, q)),
            None => None,
        }
    } else if buffer_g(inp, p) is Some {
        let (out, mode, attrs) = buffer_g(inp, p)->0;
        Some((if out { ArgView::OutBuffer(mode, attrs) } else { ArgView::InBuffer(mode, attrs) }, p + 3))
    } else {
        match nominal_g(inp, p) {
            Some((t, q)) => Some((ArgView::In(t), q)),
            None => None,
        }
    }
}

/// `type name = T;`
pub open spec fn alias_g(inp: Input, p: int) -> Option<(AliasView, int)> {
    if !kw_at(inp, p, "type".spec_bytes()) {
        None
    } else {
        match path_g(inp, p + 1) {
            Some((name, q)) => if !punct_at(inp, q, 61) {
                None
            } else {
                match nominal_g(inp, q + 1) {
                    Some((t, r)) => if punct_at(inp, r, 59) {
                        Some((AliasView { name, referenced_type: t, location: span_of(inp, p, r + 1) }, r + 1))
                    } else {
                        None
                    },
                    None => None,
                }
            },
            None => None,
        }
    }
}

/// A structure marker.
#[verifier::opaque]
pub open spec fn marker_g(inp: Input, p: int) -> Option<(StructMarker, int)> {
    if sf_at(inp, p, "LargeData".spec_bytes()) {
        Some((StructMarker::LargeData, p + 3))
    } else if sf_at(inp, p, "PrefersMapAliasTransferMode".spec_bytes()) {
        Some((StructMarker::PrefersTransferMode(BufferTransferMode::MapAlias), p + 3))
    } else if sf_at(inp, p, "PrefersPointerTransferMode".spec_bytes()) {
        Some((StructMarker::PrefersTransferMode(BufferTransferMode::Pointer), p + 3))
    } else if sf_at(inp, p, "PrefersAutoSelectTransferMode".spec_bytes()) {
        Some((StructMarker::PrefersTransferMode(BufferTransferMode::AutoSelect), p + 3))
    } else {
        None
    }
}

/// The markers after the first, each after a comma.
pub open spec fn markers_rest_g(inp: Input, p: int, ms: Seq<StructMarker>) -> Option<(Seq<StructMarker>, int)>
    decreases inp.toks.len() - p,
{
    if punct_at(inp, p, 44) {
        match marker_g(inp, p + 1) {
            Some((m, q)) => if p < q <= inp.toks.len() {
                markers_rest_g(inp, q, ms.push(m))
            } else {
                None
            },
            None => None,
        }
    } else {
        Some((ms, p))
    }
}

/// The markers of a structure: none, or a colon and markers separated by commas.
pub open spec fn markers_g(inp: Input, p: int) -> Option<(Seq<StructMarker>, int)> {
    if punct_at(inp, p, 58) {
        match marker_g(inp, p + 1) {
            Some((m, q)) => markers_rest_g(inp, q, seq![m]),
            None => None,
        }
    } else {
        Some((Seq::empty(), p))
    }
}

/// The fields of a structure up to its closing brace, which the position
/// given is at.
pub open spec fn fields_g(inp: Input, p: int, fs: Seq<FieldView>) -> Option<(Seq<FieldView>, int)>
    decreases inp.toks.len() - p,
{
    if punct_at(inp, p, 125) {
        Some((fs, p))
    } else {
        match nominal_g(inp, p) {
            Some((t, q)) => match ident_g(inp, q) {
                Some((n, r)) => if punct_at(inp, r, 59) && p < r + 1 <= inp.toks.len() {
                    fields_g(inp, r + 1, fs.push(FieldView { name: n, ty: t, location: span_of(inp, p, r + 1) }))
                } else {
                    None
                },
                None => None,
            },
            None => None,
        }
    }
}

/// `struct name : markers { fields };`, where at most one marker states a
/// preferred transfer mode.
pub open spec fn struct_g(inp: Input, p: int) -> Option<(StructView, int)> {
    if !kw_at(inp, p, "struct".spec_bytes()) {
        None
    } else {
        match path_g(inp, p + 1) {
            Some((name, q)) => match markers_g(inp, q) {
                Some((ms, r)) => if !punct_at(inp, r, 123) {
                    None
                } else {
                    match fields_g(inp, r + 1, Seq::empty()) {
                        Some((fs, s)) => if punct_at(inp, s + 1, 59) && pref_count(ms) <= 1 {
                            Some((
                                StructView {
                                    name,
                                    is_large_data: exists|i: int| 0 <= i < ms.len() && ms[i] is LargeData,
                                    preferred_transfer_mode: last_pref(ms),
                                    fields: fs,
                                    location: span_of(inp, p, s + 2),
                                },
                                s + 2,
                            ))
                        } else {
                            None
                        },
                        None => None,
                    }
                },
                None => None,
            },
            None => None,
        }
    }
}

/// The arms of an enum or bitflags body after its opening brace, up to and
/// past the closing one; commas separate them, and one may end them.
pub open spec fn arms_g(inp: Input, p: int, acc: Seq<ArmView>) -> Option<(Seq<ArmView>, int)>
    decreases inp.toks.len() - p,
{
    if punct_at(inp, p, 125) {
        Some((acc, p + 1))
    } else {
        match ident_g(inp, p) {
            Some((n, q)) => if !punct_at(inp, q, 61) {
                None
            } else {
                match number_g(inp, q + 1) {
                    Some((v, r)) => {
                        let arm = ArmView { name: n, value: v, location: span_of(inp, p, r) };
                        if punct_at(inp, r, 44) && p < r + 1 <= inp.toks.len() {
                            arms_g(inp, r + 1, acc.push(arm))
                        } else if punct_at(inp, r, 125) {
                            Some((acc.push(arm), r + 1))
                        } else {
                            None
                        }
                    },
                    None => None,
                }
            },
            None => None,
        }
    }
}

/// `enum name : int { arms };` or, when not `is_enum`, `bitflags` with the
/// same shape.
pub open spec fn enum_like_g(inp: Input, p: int, is_enum: bool) -> Option<(ItemView, int)> {
    let kw = if is_enum {
        "enum".spec_bytes()
    } else {
        "bitflags".spec_bytes()
    };
    if !kw_at(inp, p, kw) {
        None
    } else {
        match path_g(inp, p + 1) {
            Some((name, q)) => if !punct_at(inp, q, 58) || int_type_g(inp, q + 1) is None || !punct_at(inp, q + 2, 123) {
                None
            } else {
                match arms_g(inp, q + 3, Seq::empty()) {
                    Some((arms, r)) => if punct_at(inp, r, 59) {
                        let e = EnumView {
                            name,
                            base_type: int_type_g(inp, q + 1)->0,
                            arms,
                            location: span_of(inp, p, r + 1),
                        };
                        Some((if is_enum { ItemView::EnumDef(e) } else { ItemView::BitflagsDef(e) }, r + 1))
                    } else {
                        None
                    },
                    None => None,
                }
            },
            None => None,
        }
    }
}

/// The arguments of a command from the first one: a value, an optional name,
/// and a comma before the next.
pub open spec fn args_g(inp: Input, p: int, acc: Seq<(Option<Seq<u8>>, ArgView)>) -> Option<
    (Seq<(Option<Seq<u8>>, ArgView)>, int),
>
    decreases inp.toks.len() - p,
{
    match value_g(inp, p) {
        Some((v, q)) => {
            let named = 0 <= q < inp.toks.len() && inp.toks[q].kind == TokenKind::Ident;
            let name: Option<Seq<u8>> = if named {
                Some(token_text(inp.src, inp.toks[q]))
            } else {
                None
            };
            let r = if named {
                q + 1
            } else {
                q
            };
            if punct_at(inp, r, 44) {
                if p < r + 1 <= inp.toks.len() {
                    args_g(inp, r + 1, acc.push((name, v)))
                } else {
                    None
                }
            } else {
                Some((acc.push((name, v)), r))
            }
        },
        None => None,
    }
}

/// `[id] Name(arguments);`, the id fitting in 32 bits.
pub open spec fn command_g(inp: Input, p: int) -> Option<(CommandView, int)> {
    if !punct_at(inp, p, 91) {
        None
    } else {
        match number_g(inp, p + 1) {
            Some((id, q)) => if id > u32::MAX || !punct_at(inp, q, 93) {
                None
            } else {
                match ident_g(inp, q + 1) {
                    Some((name, r)) => if !punct_at(inp, r, 40) {
                        None
                    } else {
                        let args = if punct_at(inp, r + 1, 41) {
                            Some((Seq::empty(), r + 1))
                        } else {
                            args_g(inp, r + 1, Seq::empty())
                        };
                        match args {
                            Some((arguments, s)) => if punct_at(inp, s, 41) && punct_at(inp, s + 1, 59) {
                                Some((CommandView { id: id as u32, name, arguments, location: span_of(inp, p, s + 2) }, s + 2))
                            } else {
                                None
                            },
                            None => None,
                        }
                    },
                    None => None,
                }
            },
            None => None,
        }
    }
}

/// The end of a service name: the first comma or opening brace at or after
/// `p`, or the end of the tokens.
pub open spec fn name_end_g(inp: Input, p: int) -> int
    decreases inp.toks.len() - p,
{
    if 0 <= p < inp.toks.len() && !punct_at(inp, p, 44) && !punct_at(inp, p, 123) {
        name_end_g(inp, p + 1)
    } else {
        p
    }
}

/// The service names after `is`: the text of the tokens up to a comma or an
/// opening brace, separated by commas; none may be empty.
pub open spec fn sm_names_g(inp: Input, p: int, acc: Seq<Seq<u8>>) -> Option<(Seq<Seq<u8>>, int)>
    decreases inp.toks.len() - p,
{
    let e = name_end_g(inp, p);
    if e <= p {
        None
    } else {
        let name = inp.src.subrange(inp.toks[p].start as int, inp.toks[e - 1].end as int);
        if punct_at(inp, e, 44) {
            if p < e + 1 <= inp.toks.len() {
                sm_names_g(inp, e + 1, acc.push(name))
            } else {
                None
            }
        } else {
            Some((acc.push(name), e))
        }
    }
}

/// The commands of an interface up to its closing brace, which the position
/// given is at.
pub open spec fn commands_g(inp: Input, p: int, acc: Seq<CommandView>) -> Option<(Seq<CommandView>, int)>
    decreases inp.toks.len() - p,
{
    if punct_at(inp, p, 125) {
        Some((acc, p))
    } else {
        match command_g(inp, p) {
            Some((c, q)) => if p < q <= inp.toks.len() {
                commands_g(inp, q, acc.push(c))
            } else {
                None
            },
            None => None,
        }
    }
}

/// `interface name is names { commands }`, the `is` part and the final
/// semicolon being optional.
pub open spec fn interface_g(inp: Input, p: int) -> Option<(InterfaceView, int)> {
    if !kw_at(inp, p, "interface".spec_bytes()) {
        None
    } else {
        match path_g(inp, p + 1) {
            Some((name, q)) => {
                let names = if kw_at(inp, q, "is".spec_bytes()) {
                    sm_names_g(inp, q + 1, Seq::empty())
                } else {
                    Some((Seq::empty(), q))
                };
                match names {
                    Some((sm_names, r)) => if !punct_at(inp, r, 123) {
                        None
                    } else {
                        match commands_g(inp, r + 1, Seq::empty()) {
                            Some((commands, s)) => {
                                let e = if punct_at(inp, s + 1, 59) {
                                    s + 2
                                } else {
                                    s + 1
                                };
                                Some((
                                    InterfaceView { name, is_domain: false, sm_names, commands, location: span_of(inp, p, e) },
                                    e,
                                ))
                            },
                            None => None,
                        }
                    },
                    None => None,
                }
            },
            None => None,
        }
    }
}

/// One top-level item.
pub open spec fn item_g(inp: Input, p: int) -> Option<(ItemView, int)> {
    if kw_at(inp, p, "type".spec_bytes()) {
        match alias_g(inp, p) {
            Some((a, q)) => Some((ItemView::TypeAlias(a), q)),
            None => None,
        }
    } else if kw_at(inp, p, "struct".spec_bytes()) {
        match struct_g(inp, p) {
            Some((s, q)) => Some((ItemView::StructDef(s), q)),
            None => None,
        }
    } else if kw_at(inp, p, "enum".spec_bytes()) {
        enum_like_g(inp, p, true)
    } else if kw_at(inp, p, "bitflags".spec_bytes()) {
        enum_like_g(inp, p, false)
    } else if kw_at(inp, p, "interface".spec_bytes()) {
        match interface_g(inp, p) {
            Some((i, q)) => Some((ItemView::InterfaceDef(i), q)),
            None => None,
        }
    } else {
        None
    }
}

/// The items from `p` to the end of the tokens.
pub open spec fn items_g(inp: Input, p: int, acc: Seq<ItemView>) -> Option<Seq<ItemView>>
    decreases inp.toks.len() - p,
{
    if p < 0 || p >= inp.toks.len() {
        Some(acc)
    } else {
        match item_g(inp, p) {
            Some((it, q)) => if p < q <= inp.toks.len() {
                items_g(inp, q, acc.push(it))
            } else {
                None
            },
            None => None,
        }
    }
}

} // verus!
