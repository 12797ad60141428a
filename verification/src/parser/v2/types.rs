//! Identifiers and type specifiers.

use vstd::prelude::*;
use crate::ast::{Identifier, OwnershipKind, PrimitiveType, TypeSpecifier};
use crate::error::ParserError;
use crate::lexer::v2::{Keyword, Token, TokenType};
use super::Parser;
use super::token_description;

verus! {

/// The name carried by an identifier token.
pub open spec fn ident_name(t: TokenType) -> String {
    t->Identifier_0
}

/// The dotted name spelled by `n` identifiers at `i`, `i + 2`, ... separated
/// by dots.
pub open spec fn dotted_text(toks: Seq<Token>, i: int, n: nat) -> Seq<char>
    decreases n,
{
    if n <= 1 {
        ident_name(toks[i].token_type)@
    } else {
        dotted_text(toks, i, (n - 1) as nat) + seq!['.'] + ident_name(toks[i + 2 * (n - 1)].token_type)@
    }
}

/// The tokens at `i`, `i + 2`, ... (`n` of them) are identifiers and the
/// tokens between them are dots.
pub open spec fn dotted_shape(toks: Seq<Token>, i: int, n: nat) -> bool {
    &&& n >= 1
    &&& forall|k: int| 0 <= k < n ==> #[trigger] toks[i + 2 * k].token_type is Identifier
    &&& forall|k: int| 1 <= k < n ==> #[trigger] toks[i + 2 * k - 1].token_type is Dot
}

/// The primitive type that a keyword names, if it names one.
pub open spec fn primitive_of(k: Keyword) -> Option<PrimitiveType> {
    match k {
        Keyword::Int => Some(PrimitiveType::Integer),
        Keyword::Int32 => Some(PrimitiveType::Integer32),
        Keyword::Int64 => Some(PrimitiveType::Integer64),
        Keyword::Float => Some(PrimitiveType::Float),
        Keyword::Float32 => Some(PrimitiveType::Float32),
        Keyword::Float64 => Some(PrimitiveType::Float64),
        Keyword::String_ => Some(PrimitiveType::String),
        Keyword::Char => Some(PrimitiveType::Char),
        Keyword::Bool => Some(PrimitiveType::Boolean),
        Keyword::Void => Some(PrimitiveType::Void),
        Keyword::SizeT => Some(PrimitiveType::SizeT),
        _ => None,
    }
}

/// The shape of a type specifier parsed from a stream whose first token has
/// kind `first`: a sigil gives the matching ownership wrapper, a primitive
/// keyword its primitive type, `Array`/`Map`/`Pointer`/`MutPointer` their
/// built-in types, and an identifier a named or generic type of that name.
pub open spec fn type_head(first: TokenType, t: TypeSpecifier) -> bool {
    match first {
        TokenType::Caret => t matches TypeSpecifier::Owned { ownership, .. } && ownership == OwnershipKind::Owned,
        TokenType::Ampersand => t matches TypeSpecifier::Owned { ownership, .. }
            && (ownership == OwnershipKind::Borrowed || ownership == OwnershipKind::BorrowedMut),
        TokenType::Tilde => t matches TypeSpecifier::Owned { ownership, .. } && ownership == OwnershipKind::Shared,
        TokenType::Keyword(k) => match primitive_of(k) {
            Some(p) => t matches TypeSpecifier::Primitive { primitive_type, .. } && primitive_type == p,
            None => match k {
                Keyword::Array => t is Array,
                Keyword::Map_ => t is Map_,
                Keyword::Pointer => t matches TypeSpecifier::Pointer { is_mutable, .. } && !is_mutable,
                Keyword::MutPointer => t matches TypeSpecifier::Pointer { is_mutable, .. } && is_mutable,
                _ => false,
            },
        },
        TokenType::Identifier(name) => {
            ||| t matches TypeSpecifier::Named { name: n, .. } && n.name == name
            ||| t matches TypeSpecifier::Generic { base_type, .. } && base_type.name == name
        },
        _ => false,
    }
}

/// What a type specifier says, without its source locations.
pub enum TypeShape {
    Primitive(PrimitiveType),
    Named(Seq<char>),
    Generic(Seq<char>, Seq<TypeShape>),
    /// A type parameter with the names of its constraints.
    Parameter(Seq<char>, Seq<Seq<char>>),
    /// An array of an element type; `true` where it has a size.
    ArrayOf(Box<TypeShape>, bool),
    MapOf(Box<TypeShape>, Box<TypeShape>),
    PointerTo(Box<TypeShape>, bool),
    Owned(Box<TypeShape>, OwnershipKind),
}

/// The shapes of a sequence of type specifiers.
pub open spec fn shapes_of(ts: Seq<Box<TypeSpecifier>>) -> Seq<TypeShape>
    decreases ts,
{
    if ts.len() == 0 {
        seq![]
    } else {
        shapes_of(ts.drop_last()).push(shape_of(*ts.last()))
    }
}

/// `shapes_of` keeps the length and maps each specifier to its shape.
pub proof fn lemma_shapes_of(ts: Seq<Box<TypeSpecifier>>)
    ensures
        shapes_of(ts).len() == ts.len(),
        forall|k: int| 0 <= k < ts.len() ==> #[trigger] shapes_of(ts)[k] == shape_of(*ts[k]),
    decreases ts.len(),
{
    if ts.len() > 0 {
        lemma_shapes_of(ts.drop_last());
    }
}

/// The shape of a type specifier.
pub open spec fn shape_of(t: TypeSpecifier) -> TypeShape
    decreases t,
{
    match t {
        TypeSpecifier::Primitive { primitive_type, .. } => TypeShape::Primitive(primitive_type),
        TypeSpecifier::Named { name, .. } => TypeShape::Named(name.name@),
        TypeSpecifier::Generic { base_type, type_arguments, .. } => TypeShape::Generic(
            base_type.name@,
            shapes_of(type_arguments@),
        ),
        TypeSpecifier::TypeParameter { name, constraints, .. } => TypeShape::Parameter(
            name.name@,
            constraints@.map_values(|c: Identifier| c.name@),
        ),
        TypeSpecifier::Array { element_type, size, .. } => TypeShape::ArrayOf(Box::new(shape_of(*element_type)), size is Some),
        TypeSpecifier::Map_ { key_type, value_type, .. } => TypeShape::MapOf(
            Box::new(shape_of(*key_type)),
            Box::new(shape_of(*value_type)),
        ),
        TypeSpecifier::Pointer { target_type, is_mutable, .. } => TypeShape::PointerTo(
            Box::new(shape_of(*target_type)),
            is_mutable,
        ),
        TypeSpecifier::Owned { base_type, ownership, .. } => TypeShape::Owned(Box::new(shape_of(*base_type)), ownership),
    }
}

/// The token at `i` exists and has the variant of `t`.
pub open spec fn token_is(toks: Seq<Token>, i: int, t: TokenType) -> bool {
    0 <= i < toks.len() && crate::parser::v2::spec_tag(toks[i].token_type) == crate::parser::v2::spec_tag(t)
}

/// A type read after an ownership sigil, wrapped in that ownership.
pub open spec fn wrapped(r: Option<(TypeShape, int)>, ownership: OwnershipKind) -> Option<(TypeShape, int)> {
    match r {
        Some((s, j)) => Some((TypeShape::Owned(Box::new(s), ownership), j)),
        None => None,
    }
}

/// The rest of a dotted name whose text so far is `acc`, from index `j`:
/// each dot must be followed by an identifier, and the name ends at the
/// first token that is not a dot. Gives the whole text and the index after it.
pub open spec fn dotted_rest(toks: Seq<Token>, j: int, acc: Seq<char>) -> Option<(Seq<char>, int)>
    decreases toks.len() - j,
{
    if token_is(toks, j, TokenType::Dot) {
        if j + 1 < toks.len() && toks[j + 1].token_type is Identifier {
            dotted_rest(toks, j + 2, acc + seq!['.'] + ident_name(toks[j + 1].token_type)@)
        } else {
            None
        }
    } else {
        Some((acc, j))
    }
}

/// The dotted name written at index `i` and the index after it, if one is.
pub open spec fn dotted_at(toks: Seq<Token>, i: int) -> Option<(Seq<char>, int)> {
    if 0 <= i < toks.len() && toks[i].token_type is Identifier {
        dotted_rest(toks, i + 1, ident_name(toks[i].token_type)@)
    } else {
        None
    }
}

/// The name of a named type written at index `i` and the index after it:
/// a single identifier, or a dotted name where `dotted` allows one.
pub open spec fn name_at(toks: Seq<Token>, i: int, dotted: bool) -> Option<(Seq<char>, int)> {
    if dotted {
        dotted_at(toks, i)
    } else if 0 <= i < toks.len() && toks[i].token_type is Identifier {
        Some((ident_name(toks[i].token_type)@, i + 1))
    } else {
        None
    }
}

/// The type written at index `i` and the index after it, if a type is
/// written there: an ownership sigil before a type, a primitive type,
/// `Array<T>`, `Map<K, V>`, `Pointer<T>`, `MutPointer<T>`, or a name
/// (dotted where `dotted` allows it) with optional generic arguments
/// `<T, ...>`.
pub open spec fn type_at(toks: Seq<Token>, i: int, dotted: bool) -> Option<(TypeShape, int)>
    decreases toks.len() - i, 0int,
{
    if i < 0 || i >= toks.len() {
        None
    } else {
        match toks[i].token_type {
            TokenType::Caret => wrapped(type_at(toks, i + 1, dotted), OwnershipKind::Owned),
            TokenType::Ampersand => if i + 1 < toks.len() && toks[i + 1].token_type == TokenType::Keyword(Keyword::Mut) {
                wrapped(type_at(toks, i + 2, dotted), OwnershipKind::BorrowedMut)
            } else {
                wrapped(type_at(toks, i + 1, dotted), OwnershipKind::Borrowed)
            },
            TokenType::Tilde => wrapped(type_at(toks, i + 1, dotted), OwnershipKind::Shared),
            TokenType::Keyword(k) => match primitive_of(k) {
                Some(p) => Some((TypeShape::Primitive(p), i + 1)),
                None => if (k == Keyword::Array || k == Keyword::Pointer || k == Keyword::MutPointer || k == Keyword::Map_)
                    && token_is(toks, i + 1, TokenType::Less) {
                    match type_at(toks, i + 2, dotted) {
                        Some((s, j)) => if k == Keyword::Map_ {
                            if i < j && token_is(toks, j, TokenType::Comma) {
                                match type_at(toks, j + 1, dotted) {
                                    Some((v, m)) => if token_is(toks, m, TokenType::Greater) {
                                        Some((TypeShape::MapOf(Box::new(s), Box::new(v)), m + 1))
                                    } else {
                                        None
                                    },
                                    None => None,
                                }
                            } else {
                                None
                            }
                        } else if token_is(toks, j, TokenType::Greater) {
                            if k == Keyword::Array {
                                Some((TypeShape::ArrayOf(Box::new(s), false), j + 1))
                            } else {
                                Some((TypeShape::PointerTo(Box::new(s), k == Keyword::MutPointer), j + 1))
                            }
                        } else {
                            None
                        },
                        None => None,
                    }
                } else {
                    None
                },
            },
            TokenType::Identifier(_) => match name_at(toks, i, dotted) {
                Some((name, e)) => if !token_is(toks, e, TokenType::Less) {
                    Some((TypeShape::Named(name), e))
                } else if e <= i {
                    None
                } else {
                    match type_at(toks, e + 1, dotted) {
                        Some((first, j)) => if e < j <= toks.len() {
                            match type_arguments_after(toks, j, dotted) {
                                Some((rest, m)) => if token_is(toks, m, TokenType::Greater) {
                                    Some((TypeShape::Generic(name, seq![first] + rest), m + 1))
                                } else {
                                    None
                                },
                                None => None,
                            }
                        } else {
                            None
                        },
                        None => None,
                    }
                },
                None => None,
            },
            _ => None,
        }
    }
}

/// The further generic arguments `, T, ...` written from index `j`, and
/// the index after them.
pub open spec fn type_arguments_after(toks: Seq<Token>, j: int, dotted: bool) -> Option<(Seq<TypeShape>, int)>
    decreases toks.len() - j, 1int,
{
    if 0 <= j < toks.len() && token_is(toks, j, TokenType::Comma) {
        match type_at(toks, j + 1, dotted) {
            Some((s, k)) => if j < k <= toks.len() {
                match type_arguments_after(toks, k, dotted) {
                    Some((rest, m)) => Some((seq![s] + rest, m)),
                    None => None,
                }
            } else {
                None
            },
            None => None,
        }
    } else {
        Some((seq![], j))
    }
}

impl Parser {
    /// Parses one identifier.
    pub fn parse_identifier(&mut self) -> (r: Result<Identifier, ParserError>)
        requires
            old(self).wf(),
        ensures
            final(self).moved_from(*old(self)),
            r is Ok <==> old(self).cur() is Identifier,
            r is Ok ==> final(self).pos() == old(self).pos() + 1,
            r is Err ==> final(self).pos() == old(self).pos(),
            r matches Ok(id) ==> id.name == ident_name(old(self).cur())
                && id.source_location == old(self).toks()[old(self).pos()].location,
    {
        let location = self.current_location();
        match &self.peek().token_type {
            TokenType::Identifier(name) => {
                let name = name.clone();
                self.advance();
                Ok(Identifier::new(name, location))
            },
            _ => Err(self.unexpected("identifier")),
        }
    }

    /// Parses a dotted name such as `std.io.File` into one identifier whose
    /// name is the parts joined with dots.
    pub fn parse_dotted_identifier(&mut self) -> (r: Result<Identifier, ParserError>)
        requires
            old(self).wf(),
        ensures
            final(self).moved_from(*old(self)),
            r is Ok ==> old(self).cur() is Identifier,
            r is Ok <==> dotted_at(old(self).toks(), old(self).pos()) is Some,
            r matches Ok(id) ==> dotted_at(old(self).toks(), old(self).pos()) == Some((id.name@, final(self).pos())),
            r matches Ok(id) ==> {
                let n = ((final(self).pos() - old(self).pos() + 1) / 2) as nat;
                &&& final(self).pos() - old(self).pos() == 2 * n - 1
                &&& dotted_shape(old(self).toks(), old(self).pos(), n)
                &&& id.name@ == dotted_text(old(self).toks(), old(self).pos(), n)
                &&& !(final(self).cur() is Dot)
                &&& id.source_location == old(self).toks()[old(self).pos()].location
            },
    {
        let start_location = self.current_location();
        let first = self.parse_identifier()?;
        let mut name = first.name;
        let ghost p0 = old(self).pos();
        let mut n: usize = 1;
        assert(name@ == dotted_text(self.toks(), p0, 1));
        while self.check(&TokenType::Dot)
            invariant
                self.moved_from(*old(self)),
                p0 == old(self).pos(),
                n >= 1,
                self.pos() == p0 + 2 * n - 1,
                dotted_shape(self.toks(), p0, n as nat),
                name@ == dotted_text(self.toks(), p0, n as nat),
                dotted_at(self.toks(), p0) == dotted_rest(self.toks(), self.pos(), name@),
            decreases self.toks().len() - self.pos(),
        {
            let ghost before = name@;
            let ghost p = self.pos();
            self.advance();
            let part = self.parse_identifier()?;
            name.append(".");
            name.append(part.name.as_str());
            proof {
                reveal_strlit(".");
                assert(name@ =~= before + seq!['.'] + ident_name(self.toks()[p + 1].token_type)@);
                assert(self.toks()[p0 + 2 * n] == self.toks()[p0 + 2 * (n + 1 - 1)]);
                assert(dotted_shape(self.toks(), p0, (n + 1) as nat)) by {
                    assert forall|k: int| 0 <= k < n + 1 implies #[trigger] self.toks()[p0 + 2 * k].token_type is Identifier by {
                        if k < n {
                        }
                    }
                    assert forall|k: int| 1 <= k < n + 1 implies #[trigger] self.toks()[p0 + 2 * k - 1].token_type is Dot by {
                        if k < n {
                        }
                    }
                }
            }
            n = n + 1;
        }
        Ok(Identifier::new(name, start_location))
    }

    fn primitive(&mut self, primitive_type: PrimitiveType) -> (r: TypeSpecifier)
        requires
            old(self).wf(),
            !old(self).at_eof(),
        ensures
            final(self).moved_from(*old(self)),
            final(self).pos() == old(self).pos() + 1,
            r matches TypeSpecifier::Primitive { primitive_type: p, .. } && p == primitive_type,
    {
        let source_location = self.current_location();
        self.advance();
        TypeSpecifier::Primitive { primitive_type, source_location }
    }

    /// Parses a type specifier: an ownership sigil (`^`, `&`, `&mut`, `~`)
    /// before a type, a primitive type, `Array<T>`, `Map<K, V>`,
    /// `Pointer<T>`, `MutPointer<T>`, or a named type with optional generic
    /// arguments.
    pub fn parse_type(&mut self) -> (r: Result<TypeSpecifier, ParserError>)
        requires
            old(self).wf(),
        ensures
            final(self).moved_from(*old(self)),
            r is Ok ==> final(self).pos() > old(self).pos(),
            r matches Ok(t) ==> type_head(old(self).cur(), t),
            r is Ok <==> type_at(old(self).toks(), old(self).pos(), false) is Some,
            r matches Ok(t) ==> type_at(old(self).toks(), old(self).pos(), false) == Some((shape_of(t), final(self).pos())),
            old(self).cur() == TokenType::Keyword(Keyword::Array) && token_is(old(self).toks(), old(self).pos() + 1, TokenType::Less)
                ==> (type_at(old(self).toks(), old(self).pos() + 2, false) matches Some((t, j))
                ==> (!token_is(old(self).toks(), j, TokenType::Greater) ==> (r matches Err(e)
                && e matches ParserError::UnexpectedToken { expected, found, .. } && expected@ == "expected '>' to close Array type"@
                && found@ == token_description(old(self).toks()[j].token_type)))),
            old(self).cur() == TokenType::Keyword(Keyword::Map_) && token_is(old(self).toks(), old(self).pos() + 1, TokenType::Less)
                ==> (type_at(old(self).toks(), old(self).pos() + 2, false) matches Some((t, j))
                ==> (!token_is(old(self).toks(), j, TokenType::Comma) ==> (r matches Err(e)
                && e matches ParserError::UnexpectedToken { expected, found, .. } && expected@ == "expected ',' between Map key and value types"@
                && found@ == token_description(old(self).toks()[j].token_type)))),
        decreases old(self).toks().len() - old(self).pos(),
    {
        let ghost toks = old(self).toks();
        let ghost i = old(self).pos();
        let start_location = self.current_location();

        if self.check(&TokenType::Caret) {
            self.advance();
            let base_type = self.parse_type()?;
            return Ok(TypeSpecifier::Owned {
                base_type: Box::new(base_type),
                ownership: OwnershipKind::Owned,
                source_location: start_location,
            });
        }
        if self.check(&TokenType::Ampersand) {
            self.advance();
            if self.check_keyword(Keyword::Mut) {
                self.advance();
                let base_type = self.parse_type()?;
                return Ok(TypeSpecifier::Owned {
                    base_type: Box::new(base_type),
                    ownership: OwnershipKind::BorrowedMut,
                    source_location: start_location,
                });
            }
            let base_type = self.parse_type()?;
            return Ok(TypeSpecifier::Owned {
                base_type: Box::new(base_type),
                ownership: OwnershipKind::Borrowed,
                source_location: start_location,
            });
        }
        if self.check(&TokenType::Tilde) {
            self.advance();
            let base_type = self.parse_type()?;
            return Ok(TypeSpecifier::Owned {
                base_type: Box::new(base_type),
                ownership: OwnershipKind::Shared,
                source_location: start_location,
            });
        }

        let keyword = match &self.peek().token_type {
            TokenType::Keyword(k) => Some(*k),
            _ => None,
        };
        if let Some(k) = keyword {
            match k {
                Keyword::Int => return Ok(self.primitive(PrimitiveType::Integer)),
                Keyword::Int32 => return Ok(self.primitive(PrimitiveType::Integer32)),
                Keyword::Int64 => return Ok(self.primitive(PrimitiveType::Integer64)),
                Keyword::Float => return Ok(self.primitive(PrimitiveType::Float)),
                Keyword::Float32 => return Ok(self.primitive(PrimitiveType::Float32)),
                Keyword::Float64 => return Ok(self.primitive(PrimitiveType::Float64)),
                Keyword::String_ => return Ok(self.primitive(PrimitiveType::String)),
                Keyword::Char => return Ok(self.primitive(PrimitiveType::Char)),
                Keyword::Bool => return Ok(self.primitive(PrimitiveType::Boolean)),
                Keyword::Void => return Ok(self.primitive(PrimitiveType::Void)),
                Keyword::SizeT => return Ok(self.primitive(PrimitiveType::SizeT)),
                Keyword::Array => {
                    self.advance();
                    self.expect(&TokenType::Less, "expected '<' after Array")?;
                    let element_type = self.parse_type()?;
                    self.expect(&TokenType::Greater, "expected '>' to close Array type")?;
                    return Ok(TypeSpecifier::Array {
                        element_type: Box::new(element_type),
                        size: None,
                        source_location: start_location,
                    });
                },
                Keyword::Map_ => {
                    self.advance();
                    self.expect(&TokenType::Less, "expected '<' after Map")?;
                    let key_type = self.parse_type()?;
                    self.expect(&TokenType::Comma, "expected ',' between Map key and value types")?;
                    let value_type = self.parse_type()?;
                    self.expect(&TokenType::Greater, "expected '>' to close Map type")?;
                    return Ok(TypeSpecifier::Map_ {
                        key_type: Box::new(key_type),
                        value_type: Box::new(value_type),
                        source_location: start_location,
                    });
                },
                Keyword::Pointer => {
                    self.advance();
                    self.expect(&TokenType::Less, "expected '<' after Pointer")?;
                    let target_type = self.parse_type()?;
                    self.expect(&TokenType::Greater, "expected '>' to close Pointer type")?;
                    return Ok(TypeSpecifier::Pointer {
                        target_type: Box::new(target_type),
                        is_mutable: false,
                        source_location: start_location,
                    });
                },
                Keyword::MutPointer => {
                    self.advance();
                    self.expect(&TokenType::Less, "expected '<' after MutPointer")?;
                    let target_type = self.parse_type()?;
                    self.expect(&TokenType::Greater, "expected '>' to close MutPointer type")?;
                    return Ok(TypeSpecifier::Pointer {
                        target_type: Box::new(target_type),
                        is_mutable: true,
                        source_location: start_location,
                    });
                },
                _ => {},
            }
        }

        // A user-defined type, possibly with generic arguments.
        let name = self.parse_identifier()?;
        if self.check(&TokenType::Less) {
            self.advance();
            let mut type_arguments: Vec<Box<TypeSpecifier>> = Vec::new();
            let first = self.parse_type()?;
            let ghost j0 = self.pos();
            let ghost s0 = shape_of(first);
            type_arguments.push(Box::new(first));
            proof {
                assert(type_arguments@.drop_last() =~= Seq::<Box<TypeSpecifier>>::empty());
                lemma_shapes_of(type_arguments@);
            }
            while self.check(&TokenType::Comma)
                invariant
                    self.moved_from(*old(self)),
                    self.pos() > old(self).pos(),
                    toks == self.toks(),
                    i == old(self).pos(),
                    old(self).cur() is Identifier,
                    token_is(toks, i + 1, TokenType::Less),
                    type_at(toks, i + 2, false) == Some((s0, j0)),
                    i < j0 <= self.pos(),
                    type_arguments@.len() >= 1,
                    shapes_of(type_arguments@).len() == type_arguments@.len(),
                    shapes_of(type_arguments@)[0] == s0,
                    type_arguments_after(toks, j0, false) == match type_arguments_after(toks, self.pos(), false) {
                        Some((rest, m)) => Some((shapes_of(type_arguments@).subrange(1, type_arguments@.len() as int) + rest, m)),
                        None => None,
                    },
                    name.name == ident_name(old(self).cur()),
                decreases self.toks().len() - self.pos(),
            {
                let ghost p = self.pos();
                let ghost before = type_arguments@;
                self.advance();
                let next = self.parse_type()?;
                type_arguments.push(Box::new(next));
                proof {
                    assert(type_arguments@.drop_last() =~= before);
                    assert(shapes_of(type_arguments@) =~= shapes_of(before).push(shape_of(next)));
                    assert(shapes_of(type_arguments@).subrange(1, type_arguments@.len() as int)
                        =~= shapes_of(before).subrange(1, before.len() as int).push(shape_of(next)));
                    match type_arguments_after(toks, self.pos(), false) {
                        Some((rest, m)) => {
                            assert(seq![shape_of(next)] + rest =~= seq![shape_of(next)] + rest);
                            assert(shapes_of(before).subrange(1, before.len() as int) + (seq![shape_of(next)] + rest)
                                =~= shapes_of(type_arguments@).subrange(1, type_arguments@.len() as int) + rest);
                        },
                        None => {},
                    }
                }
            }
            self.expect(&TokenType::Greater, "expected '>' to close generic type")?;
            let r = TypeSpecifier::Generic { base_type: name, type_arguments, source_location: start_location };
            proof {
                assert(seq![s0] + shapes_of(type_arguments@).subrange(1, type_arguments@.len() as int)
                    =~= shapes_of(type_arguments@));
            }
            return Ok(r);
        }
        Ok(TypeSpecifier::Named { name, source_location: start_location })
    }
}

} // verus!
