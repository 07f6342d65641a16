//! A recursive descent parser from the tokens of a SwIPC file to its items.
//!
//! ```text
//! file      := item*
//! item      := 'type' path '=' type ';'
//!            | 'struct' path (':' marker (',' marker)*)? '{' (type ident ';')* '}' ';'
//!            | ('enum' | 'bitflags') path ':' int '{' (ident '=' number ','?)* '}' ';'
//!            | 'interface' path ('is' name (',' name)*)? '{' command* '}' ';'?
//! command   := '[' number ']' ident '(' (value ident? (',' value ident?)*)? ')' ';'
//! type      := int | 'bool' | 'f32' | 'sf::Bytes' '<' number (',' number)? '>'
//!            | 'sf::Unknown' ('<' number '>')? | path
//! ```

use vstd::prelude::*;
use crate::swipc::diagnostics::{Diagnostic, DiagnosticView, Severity, Span, error_at};
use crate::swipc::grammar::{
    Input, FieldView, ArmView, ArgView, CommandView, ItemView, argument_view, kw_at, punct_at, sep_at, sf_at, span_of, ident_g, number_g, path_rest_g, path_g, int_type_g, bytes_args_g,
    nominal_g, angle_nominal_g, shared_pointer_g, handle_g, array_g, buffer_g, out_value_g, value_g, alias_g, marker_g,
    markers_rest_g, markers_g, fields_g, struct_g, arms_g, enum_like_g, args_g, command_g, name_end_g, sm_names_g,
    commands_g, interface_g, item_g, items_g,
};
use crate::swipc::lexer::{Token, TokenKind, tokens_ok, token_text, lex, lex_from};
use crate::swipc::model::{
    is_ident, IdentView, NamespacedIdent, IntType, NominalType, ArgValue, HandleTransferType,
    BufferTransferMode, BufferExtraAttrs, StructMarker, StructField, Struct, EnumArm, Enum,
    BitflagsArm, Bitflags, Command, Interface, TypeAlias, IpcFileItem, many_prefs_view,
};
use crate::swipc::text::{bytes_eq, push_bytes, copy_bytes};
use crate::swipc::typecheck::{IpcFile, all_errors, reports, file_diagnostics, views, error_view};
use vstd::string::StringSliceAdditionalSpecFns;
use vstd::slice::slice_subrange;

verus! {

/// The tokens of a source and the file they come from.
pub struct Parser<'a> {
    pub src: &'a [u8],
    pub tokens: Vec<Token>,
    pub file_id: usize,
}

/// The error for a token that the grammar does not expect at `p`: its text
/// with a label on it, or, past the last token, the end of the source.
pub open spec fn unexpected_view(input: Input, p: int) -> DiagnosticView {
    if 0 <= p < input.toks.len() {
        error_view(
            "Unrecognized token: ".spec_bytes() + token_text(input.src, input.toks[p]),
            Span { file_id: input.file_id, left: input.toks[p].start, right: input.toks[p].end },
        )
    } else {
        error_view(
            "Unrecognized EOF".spec_bytes(),
            Span { file_id: input.file_id, left: input.src.len() as usize, right: input.src.len() as usize },
        )
    }
}

/// The diagnostics of a syntax error: one error, either for a token that the
/// grammar does not expect, or for a structure with more than one
/// transfer mode preference.
pub open spec fn syntax_error(input: Input, ds: Seq<Diagnostic>) -> bool {
    &&& ds.len() == 1
    &&& all_errors(ds)
    &&& (exists|p: int| ds[0]@ == #[trigger] unexpected_view(input, p)) || (exists|ms: Seq<StructMarker>|
        ds[0]@ == #[trigger] many_prefs_view(ms))
}

/// A parse step either moves past at least one token, staying within the
/// tokens, or fails with a syntax error.
pub open spec fn step_ok<T>(r: Result<(T, usize), Vec<Diagnostic>>, pos: usize, input: Input) -> bool {
    match r {
        Ok((_, p)) => pos < p <= input.toks.len(),
        Err(ds) => syntax_error(input, ds@),
    }
}

/// The result is what the grammar gives: the value, by its view, and the
/// position after it; or an error where the grammar gives nothing.
pub open spec fn gives<T: View>(r: Result<(T, usize), Vec<Diagnostic>>, g: Option<(T::V, int)>) -> bool {
    match g {
        Some((v, q)) => (r matches Ok((x, p)) && x@ == v && p == q),
        None => r is Err,
    }
}

/// Items, by value.
pub open spec fn item_views(items: Seq<IpcFileItem>) -> Seq<ItemView> {
    items.map_values(|i: IpcFileItem| i@)
}

/// The arguments read so far, by value.
pub open spec fn argument_views(args: Seq<(Option<Vec<u8>>, ArgValue)>) -> Seq<(Option<Seq<u8>>, ArgView)> {
    args.map_values(|a: (Option<Vec<u8>>, ArgValue)| argument_view(a))
}

/// The arms read so far, by value.
pub open spec fn arm_views(arms: Seq<(Vec<u8>, u64, Span)>) -> Seq<ArmView> {
    arms.map_values(|a: (Vec<u8>, u64, Span)| ArmView { name: a.0@, value: a.1, location: a.2 })
}

/// An optional name, by value.
pub open spec fn opt_ident(x: Option<NamespacedIdent>) -> Option<IdentView> {
    match x {
        Some(id) => Some(id@),
        None => None,
    }
}

/// Every part of an identifier is a valid identifier.
pub open spec fn ident_parts_ok(id: IdentView) -> bool {
    &&& is_ident(id.ident)
    &&& forall|k: int| 0 <= k < id.namespace.len() ==> is_ident(#[trigger] id.namespace[k])
}

impl<'a> Parser<'a> {
    /// The source, its tokens and the file id, as the grammar reads them.
    pub open spec fn input(&self) -> Input {
        Input { src: self.src@, toks: self.tokens@, file_id: self.file_id }
    }

    pub open spec fn wf(&self) -> bool {
        &&& tokens_ok(self.src@, self.tokens@)
        &&& self.tokens@.len() + 4 < usize::MAX
    }

    /// A diagnostic for the token at `pos`, or for the end of the input.
    fn unexpected(&self, pos: usize) -> (r: Vec<Diagnostic>)
        requires
            self.wf(),
        ensures
            r@.len() == 1,
            all_errors(r@),
            r@[0]@ == unexpected_view(self.input(), pos as int),
            syntax_error(self.input(), r@),
    {
        let mut ds: Vec<Diagnostic> = Vec::new();
        if pos < self.tokens.len() {
            let t = self.tokens[pos];
            let mut m: Vec<u8> = Vec::new();
            push_bytes(&mut m, "Unrecognized token: ".as_bytes());
            push_bytes(&mut m, slice_subrange(self.src, t.start, t.end));
            ds.push(error_at(m, Span::new(self.file_id, t.start, t.end)));
            assert(ds@[0]@ == unexpected_view(self.input(), pos as int));
        } else {
            let mut m: Vec<u8> = Vec::new();
            push_bytes(&mut m, "Unrecognized EOF".as_bytes());
            let end = self.src.len();
            ds.push(error_at(m, Span::new(self.file_id, end, end)));
            assert(ds@[0]@ == unexpected_view(self.input(), pos as int));
        }
        ds
    }

    /// Whether the token at `pos` is the identifier `kw`.
    fn is_kw(&self, pos: usize, kw: &str) -> (r: bool)
        requires
            self.wf(),
        ensures
            r == (pos < self.tokens@.len() && self.tokens@[pos as int].kind == TokenKind::Ident
                && token_text(self.src@, self.tokens@[pos as int]) == kw.spec_bytes()),
            r == kw_at(self.input(), pos as int, kw.spec_bytes()),
    {
        if pos >= self.tokens.len() {
            return false;
        }
        let t = self.tokens[pos];
        assert(self.tokens@[pos as int] == t);
        match t.kind {
            TokenKind::Ident => bytes_eq(slice_subrange(self.src, t.start, t.end), kw.as_bytes()),
            _ => false,
        }
    }

    /// Whether the token at `pos` is the punctuation byte `c`.
    fn is_punct(&self, pos: usize, c: u8) -> (r: bool)
        ensures
            r == (pos < self.tokens@.len() && self.tokens@[pos as int].kind == TokenKind::Punct(c)),
            r == punct_at(self.input(), pos as int, c),
    {
        if pos >= self.tokens.len() {
            return false;
        }
        match self.tokens[pos].kind {
            TokenKind::Punct(d) => d == c,
            _ => false,
        }
    }

    /// Whether the tokens at `pos` are `sf::` followed by the identifier `kw`.
    fn is_sf(&self, pos: usize, kw: &str) -> (r: bool)
        requires
            self.wf(),
        ensures
            r ==> pos + 3 <= self.tokens@.len(),
            r == sf_at(self.input(), pos as int, kw.spec_bytes()),
    {
        if pos >= self.tokens.len() || self.tokens.len() - pos < 3 {
            return false;
        }
        self.is_kw(pos, "sf") && self.is_path_sep(pos + 1) && self.is_kw(pos + 2, kw)
    }

    fn is_path_sep(&self, pos: usize) -> (r: bool)
        ensures
            r == (pos < self.tokens@.len() && self.tokens@[pos as int].kind == TokenKind::PathSep),
            r == sep_at(self.input(), pos as int),
    {
        if pos >= self.tokens.len() {
            return false;
        }
        match self.tokens[pos].kind {
            TokenKind::PathSep => true,
            _ => false,
        }
    }

    fn expect_punct(&self, pos: usize, c: u8) -> (r: Result<usize, Vec<Diagnostic>>)
        requires
            self.wf(),
        ensures
            r matches Ok(p) ==> p == pos + 1 && p <= self.tokens@.len(),
            (r is Ok) == punct_at(self.input(), pos as int, c),
            r matches Err(ds) ==> syntax_error(self.input(), ds@),
    {
        if self.is_punct(pos, c) {
            Ok(pos + 1)
        } else {
            Err(self.unexpected(pos))
        }
    }

    fn expect_kw(&self, pos: usize, kw: &str) -> (r: Result<usize, Vec<Diagnostic>>)
        requires
            self.wf(),
        ensures
            r matches Ok(p) ==> p == pos + 1 && p <= self.tokens@.len(),
            (r is Ok) == kw_at(self.input(), pos as int, kw.spec_bytes()),
            r matches Err(ds) ==> syntax_error(self.input(), ds@),
    {
        if self.is_kw(pos, kw) {
            Ok(pos + 1)
        } else {
            Err(self.unexpected(pos))
        }
    }

    /// The span from the start of token `first` to the end of token `last - 1`.
    fn span(&self, first: usize, last: usize) -> (r: Span)
        requires
            self.wf(),
            first < last <= self.tokens@.len(),
        ensures
            r.file_id == self.file_id,
            r.left == self.tokens@[first as int].start,
            r.right == self.tokens@[last - 1].end,
            r == span_of(self.input(), first as int, last as int),
    {
        Span::new(self.file_id, self.tokens[first].start, self.tokens[last - 1].end)
    }

    /// An identifier token; its text.
    fn parse_ident(&self, pos: usize) -> (r: Result<(Vec<u8>, usize), Vec<Diagnostic>>)
        requires
            self.wf(),
        ensures
            step_ok(r, pos, self.input()),
            r matches Ok((s, p)) ==> p == pos + 1 && self.tokens@[pos as int].kind == TokenKind::Ident
                && s@ == token_text(self.src@, self.tokens@[pos as int]) && is_ident(s@),
            gives(r, ident_g(self.input(), pos as int)),
    {
        if pos < self.tokens.len() {
            let t = self.tokens[pos];
            assert(self.tokens@[pos as int] == t);
            match t.kind {
                TokenKind::Ident => {
                    let s = copy_bytes(slice_subrange(self.src, t.start, t.end));
                    return Ok((s, pos + 1));
                },
                _ => {},
            }
        }
        Err(self.unexpected(pos))
    }

    /// A number token; its value.
    fn parse_number(&self, pos: usize) -> (r: Result<(u64, usize), Vec<Diagnostic>>)
        requires
            self.wf(),
        ensures
            step_ok(r, pos, self.input()),
            r matches Ok((v, p)) ==> p == pos + 1 && self.tokens@[pos as int].kind == TokenKind::Number(v),
            gives(r, number_g(self.input(), pos as int)),
    {
        if pos < self.tokens.len() {
            match self.tokens[pos].kind {
                TokenKind::Number(v) => {
                    return Ok((v, pos + 1));
                },
                _ => {},
            }
        }
        Err(self.unexpected(pos))
    }

    /// `a::b::C`: identifiers separated by `::`.
    fn parse_path(&self, pos: usize) -> (r: Result<(NamespacedIdent, usize), Vec<Diagnostic>>)
        requires
            self.wf(),
        ensures
            step_ok(r, pos, self.input()),
            r matches Ok((id, p)) ==> ident_parts_ok(id@),
            gives(r, path_g(self.input(), pos as int)),
    {
        let (first, mut p) = match self.parse_ident(pos) {
            Ok(x) => x,
            Err(e) => {
                return Err(e);
            },
        };
        let mut parts: Vec<Vec<u8>> = Vec::new();
        let mut last = first;
        proof {
            assert(parts@.map_values(|v: Vec<u8>| v@) =~= Seq::<Seq<u8>>::empty());
        }
        while self.is_path_sep(p)
            invariant
                self.wf(),
                pos < p <= self.tokens@.len(),
                is_ident(last@),
                forall|k: int| 0 <= k < parts@.len() ==> is_ident(#[trigger] parts@[k]@),
                path_g(self.input(), pos as int) == path_rest_g(
                    self.input(),
                    p as int,
                    parts@.map_values(|v: Vec<u8>| v@),
                    last@,
                ),
            decreases self.tokens@.len() - p,
        {
            let (next, q) = match self.parse_ident(p + 1) {
                Ok(x) => x,
                Err(e) => {
                    return Err(e);
                },
            };
            let ghost before = parts@.map_values(|v: Vec<u8>| v@);
            parts.push(last);
            assert(parts@.map_values(|v: Vec<u8>| v@) =~= before.push(last@));
            last = next;
            p = q;
        }
        let id = NamespacedIdent::new(parts, last);
        Ok((id, p))
    }

    /// The integer type named by the token at `pos`, if it names one.
    fn int_type_at(&self, pos: usize) -> (r: Option<IntType>)
        requires
            self.wf(),
        ensures
            r is Some ==> pos < self.tokens@.len(),
            r == int_type_g(self.input(), pos as int),
    {
        proof {
            reveal(int_type_g);
        }
        if self.is_kw(pos, "u8") {
            Some(IntType::U8)
        } else if self.is_kw(pos, "u16") {
            Some(IntType::U16)
        } else if self.is_kw(pos, "u32") {
            Some(IntType::U32)
        } else if self.is_kw(pos, "u64") {
            Some(IntType::U64)
        } else if self.is_kw(pos, "s8") || self.is_kw(pos, "i8") {
            Some(IntType::I8)
        } else if self.is_kw(pos, "s16") || self.is_kw(pos, "i16") {
            Some(IntType::I16)
        } else if self.is_kw(pos, "s32") || self.is_kw(pos, "i32") {
            Some(IntType::I32)
        } else if self.is_kw(pos, "s64") || self.is_kw(pos, "i64") {
            Some(IntType::I64)
        } else {
            None
        }
    }

    /// A type as it is written.
    fn parse_nominal(&self, pos: usize) -> (r: Result<(NominalType, usize), Vec<Diagnostic>>)
        requires
            self.wf(),
        ensures
            step_ok(r, pos, self.input()),
            gives(r, nominal_g(self.input(), pos as int)),
    {
        proof {
            reveal(nominal_g);
            reveal(bytes_args_g);
        }
        if let Some(i) = self.int_type_at(pos) {
            return Ok((NominalType::Int(i), pos + 1));
        }
        if self.is_kw(pos, "bool") {
            return Ok((NominalType::Bool, pos + 1));
        }
        if self.is_kw(pos, "f32") {
            return Ok((NominalType::F32, pos + 1));
        }
        if self.is_sf(pos, "Bytes") {
            let p = match self.expect_punct(pos + 3, 60) {
                Ok(p) => p,
                Err(e) => {
                    return Err(e);
                },
            };
            let (size, mut p) = match self.parse_number(p) {
                Ok(x) => x,
                Err(e) => {
                    return Err(e);
                },
            };
            let mut alignment: u64 = 1;
            if self.is_punct(p, 44) {
                let (a, q) = match self.parse_number(p + 1) {
                    Ok(x) => x,
                    Err(e) => {
                        return Err(e);
                    },
                };
                alignment = a;
                p = q;
            }
            let p = match self.expect_punct(p, 62) {
                Ok(p) => p,
                Err(e) => {
                    return Err(e);
                },
            };
            return Ok((NominalType::Bytes { size, alignment }, p));
        }
        if self.is_sf(pos, "Unknown") {
            let p = pos + 3;
            if self.is_punct(p, 60) {
                let (size, q) = match self.parse_number(p + 1) {
                    Ok(x) => x,
                    Err(e) => {
                        return Err(e);
                    },
                };
                let q = match self.expect_punct(q, 62) {
                    Ok(q) => q,
                    Err(e) => {
                        return Err(e);
                    },
                };
                return Ok((NominalType::Unknown { size: Some(size) }, q));
            }
            return Ok((NominalType::Unknown { size: None }, p));
        }
        let (name, p) = match self.parse_path(pos) {
            Ok(x) => x,
            Err(e) => {
                return Err(e);
            },
        };
        let reference_location = self.span(pos, p);
        Ok((NominalType::TypeName { name, reference_location }, p))
    }

    /// `'<' type '>'` at `pos`.
    fn parse_angle_nominal(&self, pos: usize) -> (r: Result<(NominalType, usize), Vec<Diagnostic>>)
        requires
            self.wf(),
        ensures
            step_ok(r, pos, self.input()),
            gives(r, angle_nominal_g(self.input(), pos as int)),
    {
        proof {
            reveal(angle_nominal_g);
        }
        let p = match self.expect_punct(pos, 60) {
            Ok(p) => p,
            Err(e) => {
                return Err(e);
            },
        };
        let (t, p) = match self.parse_nominal(p) {
            Ok(x) => x,
            Err(e) => {
                return Err(e);
            },
        };
        let p = match self.expect_punct(p, 62) {
            Ok(p) => p,
            Err(e) => {
                return Err(e);
            },
        };
        Ok((t, p))
    }

    /// `sf::SharedPointer<I>` at `pos`, the interface name being optional.
    fn parse_shared_pointer(&self, pos: usize) -> (r: Result<(Option<NamespacedIdent>, usize), Vec<Diagnostic>>)
        requires
            self.wf(),
            pos + 3 <= self.tokens@.len(),
        ensures
            step_ok(r, pos, self.input()),
            match shared_pointer_g(self.input(), pos as int) {
                Some((n, q)) => (r matches Ok((x, p)) && p == q && opt_ident(x) == n),
                None => r is Err,
            },
    {
        proof {
            reveal(shared_pointer_g);
        }
        let p = pos + 3;
        if !self.is_punct(p, 60) {
            return Ok((None, p));
        }
        let (name, p) = match self.parse_path(p + 1) {
            Ok(x) => x,
            Err(e) => {
                return Err(e);
            },
        };
        let p = match self.expect_punct(p, 62) {
            Ok(p) => p,
            Err(e) => {
                return Err(e);
            },
        };
        Ok((Some(name), p))
    }

    /// A handle keyword at `pos` (with or without `sf::`): whether it is an
    /// output, how it is transferred, and where it ends.
    fn handle_at(&self, pos: usize) -> (r: Option<(bool, HandleTransferType, usize)>)
        requires
            self.wf(),
        ensures
            r matches Some((_, _, p)) ==> pos < p <= self.tokens@.len(),
            match handle_g(self.input(), pos as int) {
                Some((o, t, q)) => (r matches Some((o2, t2, p)) && o2 == o && t2 == t && p == q),
                None => r is None,
            },
    {
        proof {
            reveal(handle_g);
        }
        let q = if self.is_kw(pos, "sf") && pos + 1 < self.tokens.len() && self.is_path_sep(pos + 1) {
            pos + 2
        } else {
            pos
        };
        if self.is_kw(q, "CopyHandle") {
            Some((false, HandleTransferType::Copy, q + 1))
        } else if self.is_kw(q, "MoveHandle") {
            Some((false, HandleTransferType::Move, q + 1))
        } else if self.is_kw(q, "OutCopyHandle") {
            Some((true, HandleTransferType::Copy, q + 1))
        } else if self.is_kw(q, "OutMoveHandle") {
            Some((true, HandleTransferType::Move, q + 1))
        } else {
            None
        }
    }

    /// An array keyword after `sf::` at `pos`: whether it is an output and its
    /// transfer mode.
    fn array_at(&self, pos: usize) -> (r: Option<(bool, Option<BufferTransferMode>)>)
        requires
            self.wf(),
        ensures
            r is Some ==> pos + 3 <= self.tokens@.len(),
            r == array_g(self.input(), pos as int),
    {
        proof {
            reveal(array_g);
        }
        if self.is_sf(pos, "InArray") {
            Some((false, None))
        } else if self.is_sf(pos, "InMapAliasArray") {
            Some((false, Some(BufferTransferMode::MapAlias)))
        } else if self.is_sf(pos, "InPointerArray") {
            Some((false, Some(BufferTransferMode::Pointer)))
        } else if self.is_sf(pos, "InAutoSelectArray") {
            Some((false, Some(BufferTransferMode::AutoSelect)))
        } else if self.is_sf(pos, "OutArray") {
            Some((true, None))
        } else if self.is_sf(pos, "OutMapAliasArray") {
            Some((true, Some(BufferTransferMode::MapAlias)))
        } else if self.is_sf(pos, "OutPointerArray") {
            Some((true, Some(BufferTransferMode::Pointer)))
        } else if self.is_sf(pos, "OutAutoSelectArray") {
            Some((true, Some(BufferTransferMode::AutoSelect)))
        } else {
            None
        }
    }

    /// A buffer keyword after `sf::` at `pos`: whether it is an output, its
    /// transfer mode and its extra attributes.
    fn buffer_at(&self, pos: usize) -> (r: Option<(bool, BufferTransferMode, BufferExtraAttrs)>)
        requires
            self.wf(),
        ensures
            r is Some ==> pos + 3 <= self.tokens@.len(),
            r == buffer_g(self.input(), pos as int),
    {
        proof {
            reveal(buffer_g);
        }
        let out = self.is_sf(pos, "OutBuffer") || self.is_sf(pos, "OutMapAliasBuffer") || self.is_sf(pos, "OutPointerBuffer")
            || self.is_sf(pos, "OutAutoSelectBuffer") || self.is_sf(pos, "OutNonSecureBuffer") || self.is_sf(pos, "OutNonDeviceBuffer")
            || self.is_sf(pos, "OutNonSecureAutoSelectBuffer");
        if self.is_sf(pos, "InBuffer") || self.is_sf(pos, "OutBuffer") || self.is_sf(pos, "InMapAliasBuffer") || self.is_sf(pos, "OutMapAliasBuffer") {
            Some((out, BufferTransferMode::MapAlias, BufferExtraAttrs::NoAttrs))
        } else if self.is_sf(pos, "InPointerBuffer") || self.is_sf(pos, "OutPointerBuffer") {
            Some((out, BufferTransferMode::Pointer, BufferExtraAttrs::NoAttrs))
        } else if self.is_sf(pos, "InAutoSelectBuffer") || self.is_sf(pos, "OutAutoSelectBuffer") {
            Some((out, BufferTransferMode::AutoSelect, BufferExtraAttrs::NoAttrs))
        } else if self.is_sf(pos, "InNonSecureBuffer") || self.is_sf(pos, "OutNonSecureBuffer") {
            Some((out, BufferTransferMode::MapAlias, BufferExtraAttrs::AllowNonSecure))
        } else if self.is_sf(pos, "InNonDeviceBuffer") || self.is_sf(pos, "OutNonDeviceBuffer") {
            Some((out, BufferTransferMode::MapAlias, BufferExtraAttrs::AllowNonDevice))
        } else if self.is_sf(pos, "InNonSecureAutoSelectBuffer") || self.is_sf(pos, "OutNonSecureAutoSelectBuffer") {
            Some((out, BufferTransferMode::AutoSelect, BufferExtraAttrs::AllowNonSecure))
        } else {
            None
        }
    }

    /// A command argument's value.
    fn parse_value(&self, pos: usize) -> (r: Result<(ArgValue, usize), Vec<Diagnostic>>)
        requires
            self.wf(),
        ensures
            step_ok(r, pos, self.input()),
            gives(r, value_g(self.input(), pos as int)),
    {
        proof {
            reveal(value_g);
            reveal(out_value_g);
        }
        if self.is_sf(pos, "ClientProcessId") {
            return Ok((ArgValue::ClientProcessId, pos + 3));
        }
        if let Some((out, t, p)) = self.handle_at(pos) {
            if out {
                return Ok((ArgValue::OutHandle(t), p));
            } else {
                return Ok((ArgValue::InHandle(t), p));
            }
        }
        if self.is_sf(pos, "SharedPointer") {
            let (name, p) = match self.parse_shared_pointer(pos) {
                Ok(x) => x,
                Err(e) => {
                    return Err(e);
                },
            };
            return match name {
                Some(n) => {
                    let loc = self.span(pos, p);
                    Ok((ArgValue::InObject(n, loc), p))
                },
                None => Err(self.unexpected(p)),
            };
        }
        if self.is_sf(pos, "Out") {
            let p = match self.expect_punct(pos + 3, 60) {
                Ok(p) => p,
                Err(e) => {
                    return Err(e);
                },
            };
            if self.is_sf(p, "SharedPointer") {
                let (name, q) = match self.parse_shared_pointer(p) {
                    Ok(x) => x,
                    Err(e) => {
                        return Err(e);
                    },
                };
                let q = match self.expect_punct(q, 62) {
                    Ok(q) => q,
                    Err(e) => {
                        return Err(e);
                    },
                };
                let loc = self.span(pos, q);
                return Ok((ArgValue::OutObject(name, loc), q));
            }
            let (t, q) = match self.parse_nominal(p) {
                Ok(x) => x,
                Err(e) => {
                    return Err(e);
                },
            };
            let q = match self.expect_punct(q, 62) {
                Ok(q) => q,
                Err(e) => {
                    return Err(e);
                },
            };
            return Ok((ArgValue::Out(t), q));
        }
        if let Some((out, mode)) = self.array_at(pos) {
            let (t, p) = match self.parse_angle_nominal(pos + 3) {
                Ok(x) => x,
                Err(e) => {
                    return Err(e);
                },
            };
            if out {
                return Ok((ArgValue::OutArray(t, mode), p));
            } else {
                return Ok((ArgValue::InArray(t, mode), p));
            }
        }
        if let Some((out, mode, attrs)) = self.buffer_at(pos) {
            if out {
                return Ok((ArgValue::OutBuffer(mode, attrs), pos + 3));
            } else {
                return Ok((ArgValue::InBuffer(mode, attrs), pos + 3));
            }
        }
        let (t, p) = match self.parse_nominal(pos) {
            Ok(x) => x,
            Err(e) => {
                return Err(e);
            },
        };
        Ok((ArgValue::In(t), p))
    }

    /// `type name = T;`
    fn parse_type_alias(&self, pos: usize) -> (r: Result<(TypeAlias, usize), Vec<Diagnostic>>)
        requires
            self.wf(),
        ensures
            step_ok(r, pos, self.input()),
            r matches Ok((a, _)) ==> ident_parts_ok(a.name@),
            gives(r, alias_g(self.input(), pos as int)),
    {
        let p = match self.expect_kw(pos, "type") {
            Ok(p) => p,
            Err(e) => {
                return Err(e);
            },
        };
        let (name, p) = match self.parse_path(p) {
            Ok(x) => x,
            Err(e) => {
                return Err(e);
            },
        };
        let p = match self.expect_punct(p, 61) {
            Ok(p) => p,
            Err(e) => {
                return Err(e);
            },
        };
        let (referenced_type, p) = match self.parse_nominal(p) {
            Ok(x) => x,
            Err(e) => {
                return Err(e);
            },
        };
        let p = match self.expect_punct(p, 59) {
            Ok(p) => p,
            Err(e) => {
                return Err(e);
            },
        };
        let location = self.span(pos, p);
        Ok((TypeAlias { name, referenced_type, location }, p))
    }

    /// A structure marker after `sf::`.
    fn parse_marker(&self, pos: usize) -> (r: Result<(StructMarker, usize), Vec<Diagnostic>>)
        requires
            self.wf(),
        ensures
            step_ok(r, pos, self.input()),
            match marker_g(self.input(), pos as int) {
                Some((m, q)) => (r matches Ok((x, p)) && x == m && p == q),
                None => r is Err,
            },
    {
        proof {
            reveal(marker_g);
        }
        if self.is_sf(pos, "LargeData") {
            Ok((StructMarker::LargeData, pos + 3))
        } else if self.is_sf(pos, "PrefersMapAliasTransferMode") {
            Ok((StructMarker::PrefersTransferMode(BufferTransferMode::MapAlias), pos + 3))
        } else if self.is_sf(pos, "PrefersPointerTransferMode") {
            Ok((StructMarker::PrefersTransferMode(BufferTransferMode::Pointer), pos + 3))
        } else if self.is_sf(pos, "PrefersAutoSelectTransferMode") {
            Ok((StructMarker::PrefersTransferMode(BufferTransferMode::AutoSelect), pos + 3))
        } else {
            Err(self.unexpected(pos))
        }
    }

    /// `struct name : markers { fields };`
    fn parse_struct(&self, pos: usize) -> (r: Result<(Struct, usize), Vec<Diagnostic>>)
        requires
            self.wf(),
        ensures
            step_ok(r, pos, self.input()),
            r matches Ok((s, _)) ==> ident_parts_ok(s.name@),
            gives(r, struct_g(self.input(), pos as int)),
    {
        let p = match self.expect_kw(pos, "struct") {
            Ok(p) => p,
            Err(e) => {
                return Err(e);
            },
        };
        let (name, mut p) = match self.parse_path(p) {
            Ok(x) => x,
            Err(e) => {
                return Err(e);
            },
        };
        let ghost q0 = p as int;
        let mut markers: Vec<StructMarker> = Vec::new();
        if self.is_punct(p, 58) {
            let (m, q) = match self.parse_marker(p + 1) {
                Ok(x) => x,
                Err(e) => {
                    assert(markers_g(self.input(), q0) is None);
                    return Err(e);
                },
            };
            markers.push(m);
            p = q;
            assert(markers@ =~= seq![m]);
            while self.is_punct(p, 44)
                invariant
                    self.wf(),
                    pos < p <= self.tokens@.len(),
                    markers_g(self.input(), q0) == markers_rest_g(self.input(), p as int, markers@),
                    markers_g(self.input(), q0) is None ==> struct_g(self.input(), pos as int) is None,
                decreases self.tokens@.len() - p,
            {
                let (m, q) = match self.parse_marker(p + 1) {
                    Ok(x) => x,
                    Err(e) => {
                        return Err(e);
                    },
                };
                markers.push(m);
                p = q;
            }
        } else {
            assert(markers@ =~= Seq::<StructMarker>::empty());
        }
        assert(markers_g(self.input(), q0) == Some((markers@, p as int)));
        let mut p = match self.expect_punct(p, 123) {
            Ok(p) => p,
            Err(e) => {
                return Err(e);
            },
        };
        let ghost r0 = p as int;
        let mut fields: Vec<StructField> = Vec::new();
        proof {
            assert(fields@.map_values(|f: StructField| f@) =~= Seq::<FieldView>::empty());
        }
        while !self.is_punct(p, 125)
            invariant
                self.wf(),
                pos < p <= self.tokens@.len(),
                r0 <= p,
                fields_g(self.input(), r0, Seq::empty()) is None ==> struct_g(self.input(), pos as int) is None,
                fields_g(self.input(), r0, Seq::empty()) == fields_g(
                    self.input(),
                    p as int,
                    fields@.map_values(|f: StructField| f@),
                ),
            decreases self.tokens@.len() - p,
        {
            let start = p;
            let (ty, q) = match self.parse_nominal(p) {
                Ok(x) => x,
                Err(e) => {
                    return Err(e);
                },
            };
            let (field_name, q) = match self.parse_ident(q) {
                Ok(x) => x,
                Err(e) => {
                    return Err(e);
                },
            };
            let q = match self.expect_punct(q, 59) {
                Ok(q) => q,
                Err(e) => {
                    return Err(e);
                },
            };
            let location = self.span(start, q);
            let f = StructField { name: field_name, ty, location };
            let ghost before = fields@.map_values(|f: StructField| f@);
            fields.push(f);
            assert(fields@.map_values(|f: StructField| f@) =~= before.push(f@));
            p = q;
        }
        let p = match self.expect_punct(p + 1, 59) {
            Ok(p) => p,
            Err(e) => {
                return Err(e);
            },
        };
        let location = self.span(pos, p);
        match Struct::try_new(name, fields, markers, location) {
            Ok(s) => Ok((s, p)),
            Err(e) => Err(e),
        }
    }

    /// The arms of an enum or bitflags body, from `{` to `}`: (name, value, location).
    fn parse_arms(&self, pos: usize) -> (r: Result<(Vec<(Vec<u8>, u64, Span)>, usize), Vec<Diagnostic>>)
        requires
            self.wf(),
        ensures
            step_ok(r, pos, self.input()),
            match (if punct_at(self.input(), pos as int, 123) {
                arms_g(self.input(), pos + 1, Seq::empty())
            } else {
                None
            }) {
                Some((arms, q)) => (r matches Ok((v, p)) && p == q && arm_views(v@) == arms),
                None => r is Err,
            },
    {
        let mut p = match self.expect_punct(pos, 123) {
            Ok(p) => p,
            Err(e) => {
                return Err(e);
            },
        };
        let mut arms: Vec<(Vec<u8>, u64, Span)> = Vec::new();
        proof {
            assert(arm_views(arms@) =~= Seq::<ArmView>::empty());
        }
        while !self.is_punct(p, 125)
            invariant
                self.wf(),
                pos < p <= self.tokens@.len(),
                arms_g(self.input(), pos + 1, Seq::empty()) == arms_g(self.input(), p as int, arm_views(arms@)),
            decreases self.tokens@.len() - p,
        {
            let start = p;
            let (arm_name, q) = match self.parse_ident(p) {
                Ok(x) => x,
                Err(e) => {
                    return Err(e);
                },
            };
            let q = match self.expect_punct(q, 61) {
                Ok(q) => q,
                Err(e) => {
                    return Err(e);
                },
            };
            let (value, q) = match self.parse_number(q) {
                Ok(x) => x,
                Err(e) => {
                    return Err(e);
                },
            };
            let location = self.span(start, q);
            let ghost before = arm_views(arms@);
            arms.push((arm_name, value, location));
            assert(arm_views(arms@) =~= before.push(ArmView { name: arm_name@, value, location }));
            p = q;
            if self.is_punct(p, 44) {
                p = p + 1;
            } else if !self.is_punct(p, 125) {
                return Err(self.unexpected(p));
            }
        }
        Ok((arms, p + 1))
    }

    /// `enum name : int { arms };` or `bitflags name : int { arms };`
    fn parse_enum_like(&self, pos: usize, is_enum: bool) -> (r: Result<(IpcFileItem, usize), Vec<Diagnostic>>)
        requires
            self.wf(),
        ensures
            step_ok(r, pos, self.input()),
            gives(r, enum_like_g(self.input(), pos as int, is_enum)),
    {
        let p = match self.expect_kw(pos, if is_enum { "enum" } else { "bitflags" }) {
            Ok(p) => p,
            Err(e) => {
                return Err(e);
            },
        };
        let (name, p) = match self.parse_path(p) {
            Ok(x) => x,
            Err(e) => {
                return Err(e);
            },
        };
        let p = match self.expect_punct(p, 58) {
            Ok(p) => p,
            Err(e) => {
                return Err(e);
            },
        };
        let base_type = match self.int_type_at(p) {
            Some(t) => t,
            None => {
                return Err(self.unexpected(p));
            },
        };
        let (arms, p) = match self.parse_arms(p + 1) {
            Ok(x) => x,
            Err(e) => {
                return Err(e);
            },
        };
        let p = match self.expect_punct(p, 59) {
            Ok(p) => p,
            Err(e) => {
                return Err(e);
            },
        };
        let location = self.span(pos, p);
        let ghost all = arm_views(arms@);
        let mut arms = arms;
        if is_enum {
            let mut out: Vec<EnumArm> = Vec::new();
            while arms.len() > 0
                invariant
                    out@.map_values(|a: EnumArm| a@) + arm_views(arms@) == all,
                decreases arms@.len(),
            {
                let ghost rest = arms@;
                let (n, v, l) = arms.remove(0);
                let ghost done = out@.map_values(|a: EnumArm| a@);
                out.push(EnumArm { name: n, value: v, location: l });
                proof {
                    assert(arm_views(rest) =~= seq![ArmView { name: n@, value: v, location: l }] + arm_views(arms@));
                    assert(out@.map_values(|a: EnumArm| a@) =~= done.push(ArmView { name: n@, value: v, location: l }));
                    assert(out@.map_values(|a: EnumArm| a@) + arm_views(arms@) =~= done + arm_views(rest));
                }
            }
            assert(out@.map_values(|a: EnumArm| a@) =~= all);
            Ok((IpcFileItem::EnumDef(Enum { name, base_type, arms: out, location }), p))
        } else {
            let mut out: Vec<BitflagsArm> = Vec::new();
            while arms.len() > 0
                invariant
                    out@.map_values(|a: BitflagsArm| a@) + arm_views(arms@) == all,
                decreases arms@.len(),
            {
                let ghost rest = arms@;
                let (n, v, l) = arms.remove(0);
                let ghost done = out@.map_values(|a: BitflagsArm| a@);
                out.push(BitflagsArm { name: n, value: v, location: l });
                proof {
                    assert(arm_views(rest) =~= seq![ArmView { name: n@, value: v, location: l }] + arm_views(arms@));
                    assert(out@.map_values(|a: BitflagsArm| a@) =~= done.push(ArmView { name: n@, value: v, location: l }));
                    assert(out@.map_values(|a: BitflagsArm| a@) + arm_views(arms@) =~= done + arm_views(rest));
                }
            }
            assert(out@.map_values(|a: BitflagsArm| a@) =~= all);
            Ok((IpcFileItem::BitflagsDef(Bitflags { name, base_type, arms: out, location }), p))
        }
    }

    /// `[id] Name(arguments);`
    fn parse_command(&self, pos: usize) -> (r: Result<(Command, usize), Vec<Diagnostic>>)
        requires
            self.wf(),
        ensures
            step_ok(r, pos, self.input()),
            gives(r, command_g(self.input(), pos as int)),
    {
        let p = match self.expect_punct(pos, 91) {
            Ok(p) => p,
            Err(e) => {
                return Err(e);
            },
        };
        let (id, p) = match self.parse_number(p) {
            Ok(x) => x,
            Err(e) => {
                return Err(e);
            },
        };
        if id > 0xffff_ffff {
            return Err(self.unexpected(p - 1));
        }
        let p = match self.expect_punct(p, 93) {
            Ok(p) => p,
            Err(e) => {
                return Err(e);
            },
        };
        let (name, p) = match self.parse_ident(p) {
            Ok(x) => x,
            Err(e) => {
                return Err(e);
            },
        };
        let mut p = match self.expect_punct(p, 40) {
            Ok(p) => p,
            Err(e) => {
                return Err(e);
            },
        };
        let ghost a0 = p as int;
        let mut arguments: Vec<(Option<Vec<u8>>, ArgValue)> = Vec::new();
        proof {
            assert(argument_views(arguments@) =~= Seq::<(Option<Seq<u8>>, ArgView)>::empty());
        }
        if !self.is_punct(p, 41) {
            loop
                invariant_except_break
                    args_g(self.input(), a0, Seq::empty()) == args_g(self.input(), p as int, argument_views(arguments@)),
                invariant
                    self.wf(),
                    pos < a0 <= p <= self.tokens@.len(),
                    args_g(self.input(), a0, Seq::empty()) is None ==> command_g(self.input(), pos as int) is None,
                ensures
                    args_g(self.input(), a0, Seq::empty()) == Some((argument_views(arguments@), p as int)),
                decreases self.tokens@.len() - p,
            {
                let (v, q) = match self.parse_value(p) {
                    Ok(x) => x,
                    Err(e) => {
                        return Err(e);
                    },
                };
                let mut q = q;
                let mut arg_name: Option<Vec<u8>> = None;
                if q < self.tokens.len() {
                    match self.tokens[q].kind {
                        TokenKind::Ident => {
                            let (n, q2) = match self.parse_ident(q) {
                                Ok(x) => x,
                                Err(e) => {
                                    return Err(e);
                                },
                            };
                            arg_name = Some(n);
                            q = q2;
                        },
                        _ => {},
                    }
                }
                let ghost before = argument_views(arguments@);
                let arg = (arg_name, v);
                let ghost av = argument_view(arg);
                arguments.push(arg);
                assert(argument_views(arguments@) =~= before.push(av));
                p = q;
                if self.is_punct(p, 44) {
                    p = p + 1;
                } else {
                    break;
                }
            }
        }
        let p = match self.expect_punct(p, 41) {
            Ok(p) => p,
            Err(e) => {
                return Err(e);
            },
        };
        let p = match self.expect_punct(p, 59) {
            Ok(p) => p,
            Err(e) => {
                return Err(e);
            },
        };
        let location = self.span(pos, p);
        Ok((Command { id: id as u32, name, arguments, location }, p))
    }

    /// `interface name is sm-names { commands }`
    fn parse_interface(&self, pos: usize) -> (r: Result<(Interface, usize), Vec<Diagnostic>>)
        requires
            self.wf(),
        ensures
            step_ok(r, pos, self.input()),
            r matches Ok((i, _)) ==> ident_parts_ok(i.name@),
            gives(r, interface_g(self.input(), pos as int)),
    {
        let p = match self.expect_kw(pos, "interface") {
            Ok(p) => p,
            Err(e) => {
                return Err(e);
            },
        };
        let (name, mut p) = match self.parse_path(p) {
            Ok(x) => x,
            Err(e) => {
                return Err(e);
            },
        };
        let mut sm_names: Vec<Vec<u8>> = Vec::new();
        proof {
            assert(sm_names@.map_values(|n: Vec<u8>| n@) =~= Seq::<Seq<u8>>::empty());
        }
        if self.is_kw(p, "is") {
            p = p + 1;
            let ghost s0 = p as int;
            loop
                invariant_except_break
                    sm_names_g(self.input(), s0, Seq::empty()) == sm_names_g(
                        self.input(),
                        p as int,
                        sm_names@.map_values(|n: Vec<u8>| n@),
                    ),
                invariant
                    self.wf(),
                    pos < s0 <= p <= self.tokens@.len(),
                    sm_names_g(self.input(), s0, Seq::empty()) is None ==> interface_g(self.input(), pos as int) is None,
                ensures
                    sm_names_g(self.input(), s0, Seq::empty()) == Some((sm_names@.map_values(|n: Vec<u8>| n@), p as int)),
                decreases self.tokens@.len() - p,
            {
                let start = p;
                while p < self.tokens.len() && !self.is_punct(p, 44) && !self.is_punct(p, 123)
                    invariant
                        self.wf(),
                        pos < start <= p <= self.tokens@.len(),
                        name_end_g(self.input(), start as int) == name_end_g(self.input(), p as int),
                    decreases self.tokens@.len() - p,
                {
                    p = p + 1;
                }
                if p == start {
                    return Err(self.unexpected(p));
                }
                let a = self.tokens[start].start;
                let b = self.tokens[p - 1].end;
                assert(self.tokens@[start as int].end <= self.tokens@[p - 1].end) by {
                    if start < p - 1 {
                        assert(self.tokens@[start as int].end <= self.tokens@[p - 1].start);
                    }
                }
                let ghost before = sm_names@.map_values(|n: Vec<u8>| n@);
                let sm_name = copy_bytes(slice_subrange(self.src, a, b));
                sm_names.push(sm_name);
                assert(sm_names@.map_values(|n: Vec<u8>| n@) =~= before.push(self.src@.subrange(a as int, b as int)));
                if self.is_punct(p, 44) {
                    p = p + 1;
                } else {
                    break;
                }
            }
        }
        let ghost c0 = p as int + 1;
        let mut p = match self.expect_punct(p, 123) {
            Ok(p) => p,
            Err(e) => {
                return Err(e);
            },
        };
        let mut commands: Vec<Command> = Vec::new();
        proof {
            assert(commands@.map_values(|c: Command| c@) =~= Seq::<CommandView>::empty());
        }
        while !self.is_punct(p, 125)
            invariant
                self.wf(),
                pos < c0 <= p <= self.tokens@.len(),
                commands_g(self.input(), c0, Seq::empty()) is None ==> interface_g(self.input(), pos as int) is None,
                commands_g(self.input(), c0, Seq::empty()) == commands_g(
                    self.input(),
                    p as int,
                    commands@.map_values(|c: Command| c@),
                ),
            decreases self.tokens@.len() - p,
        {
            let (c, q) = match self.parse_command(p) {
                Ok(x) => x,
                Err(e) => {
                    return Err(e);
                },
            };
            let ghost before = commands@.map_values(|c: Command| c@);
            let ghost cv = c@;
            commands.push(c);
            assert(commands@.map_values(|c: Command| c@) =~= before.push(cv));
            p = q;
        }
        let mut p = p + 1;
        if self.is_punct(p, 59) {
            p = p + 1;
        }
        let location = self.span(pos, p);
        Ok((Interface { name, is_domain: false, sm_names, commands, location }, p))
    }

    /// One top-level item.
    fn parse_item(&self, pos: usize) -> (r: Result<(IpcFileItem, usize), Vec<Diagnostic>>)
        requires
            self.wf(),
        ensures
            step_ok(r, pos, self.input()),
            gives(r, item_g(self.input(), pos as int)),
    {
        if self.is_kw(pos, "type") {
            match self.parse_type_alias(pos) {
                Ok((a, p)) => Ok((IpcFileItem::TypeAlias(a), p)),
                Err(e) => Err(e),
            }
        } else if self.is_kw(pos, "struct") {
            match self.parse_struct(pos) {
                Ok((s, p)) => Ok((IpcFileItem::StructDef(s), p)),
                Err(e) => Err(e),
            }
        } else if self.is_kw(pos, "enum") {
            self.parse_enum_like(pos, true)
        } else if self.is_kw(pos, "bitflags") {
            self.parse_enum_like(pos, false)
        } else if self.is_kw(pos, "interface") {
            match self.parse_interface(pos) {
                Ok((i, p)) => Ok((IpcFileItem::InterfaceDef(i), p)),
                Err(e) => Err(e),
            }
        } else {
            Err(self.unexpected(pos))
        }
    }

    /// All items, up to the end of the tokens.
    pub fn parse_items(&self) -> (r: Result<Vec<IpcFileItem>, Vec<Diagnostic>>)
        requires
            self.wf(),
        ensures
            r matches Err(ds) ==> syntax_error(self.input(), ds@),
            match items_g(self.input(), 0, Seq::empty()) {
                Some(its) => (r matches Ok(v) && item_views(v@) == its),
                None => r is Err,
            },
    {
        let mut items: Vec<IpcFileItem> = Vec::new();
        let mut p: usize = 0;
        proof {
            assert(item_views(items@) =~= Seq::<ItemView>::empty());
        }
        while p < self.tokens.len()
            invariant
                self.wf(),
                p <= self.tokens@.len(),
                items_g(self.input(), 0, Seq::empty()) == items_g(self.input(), p as int, item_views(items@)),
            decreases self.tokens@.len() - p,
        {
            let (item, q) = match self.parse_item(p) {
                Ok(x) => x,
                Err(e) => {
                    return Err(e);
                },
            };
            let ghost before = item_views(items@);
            let ghost iv = item@;
            items.push(item);
            assert(item_views(items@) =~= before.push(iv));
            p = q;
        }
        Ok(items)
    }
}

/// The items that the grammar reads from the tokens of a source, when the
/// source splits into tokens; there must be fewer tokens than the size of
/// memory allows.
pub open spec fn source_items(file_id: usize, src: Seq<u8>) -> Option<Seq<ItemView>> {
    match lex_from(src, 0) {
        Ok(toks) => if toks.len() + 4 < usize::MAX {
            items_g(Input { src, toks, file_id }, 0, Seq::empty())
        } else {
            None
        },
        Err(_) => None,
    }
}

/// Parse and type check the source text of a file. A file that parses gives
/// the diagnostics of the type checker, exactly as `IpcFile::try_new` does.
pub fn parse_ipc_file(file_id: usize, source: &str) -> (r: Result<IpcFile, Vec<Diagnostic>>)
    ensures
        r matches Ok(f) ==> file_diagnostics(f.items_spec()).len() == 0 && source_items(file_id, source.spec_bytes())
            == Some(item_views(f.items_spec())),
        source_items(file_id, source.spec_bytes()) is None ==> r is Err,
        r matches Err(ds) ==> ds@.len() > 0 && all_errors(ds@),
        lex_from(source.spec_bytes(), 0) matches Err(p) ==> (r matches Err(ds) && views(ds@) == seq![error_view(
            "Invalid token".spec_bytes(),
            Span { file_id, left: p as usize, right: p as usize },
        )]),
        lex_from(source.spec_bytes(), 0) matches Ok(toks) ==> (toks.len() + 4 < usize::MAX && source_items(
            file_id,
            source.spec_bytes(),
        ) is None ==> (r matches Err(ds) && syntax_error(Input { src: source.spec_bytes(), toks, file_id }, ds@))),
        source_items(file_id, source.spec_bytes()) matches Some(its) ==> exists|items: Seq<IpcFileItem>|
            item_views(items) == its && reports(r, file_diagnostics(items)) && (r matches Ok(f) ==> f.items_spec()
                == items),
{
    let items = match parse_items_from_source(file_id, source) {
        Ok(items) => items,
        Err(e) => {
            return Err(e);
        },
    };
    IpcFile::try_new(items)
}

/// Parse the source text of a file into its items, without type checking.
pub fn parse_items_from_source(file_id: usize, source: &str) -> (r: Result<Vec<IpcFileItem>, Vec<Diagnostic>>)
    ensures
        r matches Err(ds) ==> ds@.len() > 0 && all_errors(ds@),
        lex_from(source.spec_bytes(), 0) matches Err(p) ==> (r matches Err(ds) && views(ds@) == seq![error_view(
            "Invalid token".spec_bytes(),
            Span { file_id, left: p as usize, right: p as usize },
        )]),
        lex_from(source.spec_bytes(), 0) matches Ok(toks) ==> (toks.len() + 4 < usize::MAX && source_items(
            file_id,
            source.spec_bytes(),
        ) is None ==> (r matches Err(ds) && syntax_error(Input { src: source.spec_bytes(), toks, file_id }, ds@))),
        match source_items(file_id, source.spec_bytes()) {
            Some(its) => (r matches Ok(v) && item_views(v@) == its),
            None => r is Err,
        },
{
    let src = source.as_bytes();
    let tokens = match lex(src) {
        Ok(ts) => ts,
        Err(p) => {
            let mut m: Vec<u8> = Vec::new();
            push_bytes(&mut m, "Invalid token".as_bytes());
            let mut ds: Vec<Diagnostic> = Vec::new();
            ds.push(error_at(m, Span::new(file_id, p, p)));
            assert(views(ds@) =~= seq![error_view("Invalid token".spec_bytes(), Span { file_id, left: p, right: p })]);
            return Err(ds);
        },
    };
    if tokens.len() >= usize::MAX - 4 {
        let mut m: Vec<u8> = Vec::new();
        push_bytes(&mut m, "Too many tokens".as_bytes());
        let mut ds: Vec<Diagnostic> = Vec::new();
        ds.push(error_at(m, Span::new(file_id, 0, 0)));
        return Err(ds);
    }
    let parser = Parser { src, tokens, file_id };
    assert(parser.input() == Input { src: source.spec_bytes(), toks: parser.tokens@, file_id });
    parser.parse_items()
}

} // verus!
