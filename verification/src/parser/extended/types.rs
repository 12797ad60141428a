//! Identifiers and type specifiers.

use vstd::prelude::*;
use crate::ast::{Identifier, OwnershipKind, PrimitiveType, TypeSpecifier};
use crate::error::ParserError;
use crate::lexer::v2::{Keyword, Token, TokenType};
use super::Parser;
use crate::parser::v2::token_description;
use crate::parser::v2::types::{
    dotted_at, dotted_rest, dotted_shape, dotted_text, ident_name, lemma_shapes_of, primitive_of, shape_of,
    shapes_of, token_is, type_arguments_after, type_at,
};

verus! {

/// A dotted name begins with its first part.
pub proof fn lemma_dotted_text_starts_with_first(toks: Seq<Token>, i: int, n: nat)
    requires
        n >= 1,
    ensures
        dotted_text(toks, i, n).len() >= ident_name(toks[i].token_type)@.len(),
        dotted_text(toks, i, n).subrange(0, ident_name(toks[i].token_type)@.len() as int)
            == ident_name(toks[i].token_type)@,
    decreases n,
{
    let first = ident_name(toks[i].token_type)@;
    if n <= 1 {
        assert(dotted_text(toks, i, n).subrange(0, first.len() as int) =~= first);
    } else {
        lemma_dotted_text_starts_with_first(toks, i, (n - 1) as nat);
        let prev = dotted_text(toks, i, (n - 1) as nat);
        assert(dotted_text(toks, i, n).subrange(0, first.len() as int) =~= prev.subrange(0, first.len() as int));
    }
}

/// `full` begins with `first`.
pub open spec fn starts_with(full: Seq<char>, first: Seq<char>) -> bool {
    first.len() <= full.len() && full.subrange(0, first.len() as int) == first
}

/// The shape of a type specifier parsed from a stream whose first token has
/// kind `first`: a sigil gives the matching ownership wrapper, a primitive
/// keyword its primitive type, `Array`/`Map`/`Pointer`/`MutPointer` their
/// built-in types, and an identifier a named or generic type whose (possibly
/// dotted) name begins with it.
pub open spec fn type_head(first: TokenType, t: TypeSpecifier) -> bool {
    match first {
        TokenType::Caret => t matches TypeSpecifier::Owned { ownership, .. } && ownership == OwnershipKind::Owned,
        TokenType::Ampersand => t matches TypeSpecifier::Owned { ownership, .. }
            && (ownership == OwnershipKind::Borrowed || ownership == OwnershipKind::BorrowedMut),
        TokenType::Tilde => t matches TypeSpecifier::Owned { ownership, .. } && ownership == OwnershipKind::Shared,
        TokenType::Keyword(k) => match primitive_of(k) {
            Some(p) => t matches TypeSpecifier::Primitive { primitive_type, .. } && primitive_type == p,
            None => match k {
                Keyword::Array => t is Array,
                Keyword::Map_ => t is Map_,
                Keyword::Pointer => t matches TypeSpecifier::Pointer { is_mutable, .. } && !is_mutable,
                Keyword::MutPointer => t matches TypeSpecifier::Pointer { is_mutable, .. } && is_mutable,
                _ => false,
            },
        },
        TokenType::Identifier(name) => {
            ||| t matches TypeSpecifier::Named { name: n, .. } && starts_with(n.name@, name@)
            ||| t matches TypeSpecifier::Generic { base_type, .. } && starts_with(base_type.name@, name@)
        },
        _ => false,
    }
}

impl Parser {
    /// Parses one identifier.
    pub fn parse_identifier(&mut self) -> (r: Result<Identifier, ParserError>)
        requires
            old(self).wf(),
        ensures
            final(self).moved_from(*old(self)),
            r is Ok <==> old(self).cur() is Identifier,
            r is Ok ==> final(self).pos() == old(self).pos() + 1,
            r is Err ==> final(self).pos() == old(self).pos(),
            r matches Ok(id) ==> id.name == ident_name(old(self).cur())
                && id.source_location == old(self).toks()[old(self).pos()].location,
    {
        let location = self.current_location();
        match &self.peek().token_type {
            TokenType::Identifier(name) => {
                let name = name.clone();
                self.advance();
                Ok(Identifier::new(name, location))
            },
            _ => Err(self.unexpected("identifier")),
        }
    }

    /// Parses a dotted name such as `std.io.File` into one identifier whose
    /// name is the parts joined with dots.
    pub fn parse_dotted_identifier(&mut self) -> (r: Result<Identifier, ParserError>)
        requires
            old(self).wf(),
        ensures
            final(self).moved_from(*old(self)),
            r is Ok ==> old(self).cur() is Identifier,
            r is Ok <==> dotted_at(old(self).toks(), old(self).pos()) is Some,
            r matches Ok(id) ==> dotted_at(old(self).toks(), old(self).pos()) == Some((id.name@, final(self).pos())),
            r matches Ok(id) ==> {
                let n = ((final(self).pos() - old(self).pos() + 1) / 2) as nat;
                &&& final(self).pos() - old(self).pos() == 2 * n - 1
                &&& dotted_shape(old(self).toks(), old(self).pos(), n)
                &&& id.name@ == dotted_text(old(self).toks(), old(self).pos(), n)
                &&& !(final(self).cur() is Dot)
                &&& id.source_location == old(self).toks()[old(self).pos()].location
            },
    {
        let start_location = self.current_location();
        let first = self.parse_identifier()?;
        let mut name = first.name;
        let ghost p0 = old(self).pos();
        let mut n: usize = 1;
        assert(name@ == dotted_text(self.toks(), p0, 1));
        while self.check(&TokenType::Dot)
            invariant
                self.moved_from(*old(self)),
                p0 == old(self).pos(),
                n >= 1,
                self.pos() == p0 + 2 * n - 1,
                dotted_shape(self.toks(), p0, n as nat),
                name@ == dotted_text(self.toks(), p0, n as nat),
                dotted_at(self.toks(), p0) == dotted_rest(self.toks(), self.pos(), name@),
            decreases self.toks().len() - self.pos(),
        {
            let ghost before = name@;
            let ghost p = self.pos();
            self.advance();
            let part = self.parse_identifier()?;
            name.append(".");
            name.append(part.name.as_str());
            proof {
                reveal_strlit(".");
                assert(name@ =~= before + seq!['.'] + ident_name(self.toks()[p + 1].token_type)@);
                assert(self.toks()[p0 + 2 * n] == self.toks()[p0 + 2 * (n + 1 - 1)]);
                assert(dotted_shape(self.toks(), p0, (n + 1) as nat)) by {
                    assert forall|k: int| 0 <= k < n + 1 implies #[trigger] self.toks()[p0 + 2 * k].token_type is Identifier by {
                        if k < n {
                        }
                    }
                    assert forall|k: int| 1 <= k < n + 1 implies #[trigger] self.toks()[p0 + 2 * k - 1].token_type is Dot by {
                        if k < n {
                        }
                    }
                }
            }
            n = n + 1;
        }
        Ok(Identifier::new(name, start_location))
    }

    fn primitive(&mut self, primitive_type: PrimitiveType) -> (r: TypeSpecifier)
        requires
            old(self).wf(),
            !old(self).at_eof(),
        ensures
            final(self).moved_from(*old(self)),
            final(self).pos() == old(self).pos() + 1,
            r matches TypeSpecifier::Primitive { primitive_type: p, .. } && p == primitive_type,
    {
        let source_location = self.current_location();
        self.advance();
        TypeSpecifier::Primitive { primitive_type, source_location }
    }

    /// Parses a type specifier: an ownership sigil (`^`, `&`, `&mut`, `~`)
    /// before a type, a primitive type, `Array<T>`, `Map<K, V>`,
    /// `Pointer<T>`, `MutPointer<T>`, or a named type with optional generic
    /// arguments.
    pub fn parse_type(&mut self) -> (r: Result<TypeSpecifier, ParserError>)
        requires
            old(self).wf(),
        ensures
            final(self).moved_from(*old(self)),
            r is Ok ==> final(self).pos() > old(self).pos(),
            r matches Ok(t) ==> type_head(old(self).cur(), t),
            r is Ok <==> type_at(old(self).toks(), old(self).pos(), true) is Some,
            r matches Ok(t) ==> type_at(old(self).toks(), old(self).pos(), true) == Some((shape_of(t), final(self).pos())),
            old(self).cur() == TokenType::Keyword(Keyword::Array) && token_is(old(self).toks(), old(self).pos() + 1, TokenType::Less)
                ==> (type_at(old(self).toks(), old(self).pos() + 2, true) matches Some((t, j))
                ==> (!token_is(old(self).toks(), j, TokenType::Greater) ==> (r matches Err(e)
                && e matches ParserError::UnexpectedToken { expected, found, .. } && expected@ == "expected '>' to close Array type"@
                && found@ == token_description(old(self).toks()[j].token_type)))),
            old(self).cur() == TokenType::Keyword(Keyword::Map_) && token_is(old(self).toks(), old(self).pos() + 1, TokenType::Less)
                ==> (type_at(old(self).toks(), old(self).pos() + 2, true) matches Some((t, j))
                ==> (!token_is(old(self).toks(), j, TokenType::Comma) ==> (r matches Err(e)
                && e matches ParserError::UnexpectedToken { expected, found, .. } && expected@ == "expected ',' between Map key and value types"@
                && found@ == token_description(old(self).toks()[j].token_type)))),
        decreases old(self).toks().len() - old(self).pos(),
    {
        let ghost toks = old(self).toks();
        let ghost i = old(self).pos();
        let start_location = self.current_location();

        if self.check(&TokenType::Caret) {
            self.advance();
            let base_type = self.parse_type()?;
            return Ok(TypeSpecifier::Owned {
                base_type: Box::new(base_type),
                ownership: OwnershipKind::Owned,
                source_location: start_location,
            });
        }
        if self.check(&TokenType::Ampersand) {
            self.advance();
            if self.check_keyword(Keyword::Mut) {
                self.advance();
                let base_type = self.parse_type()?;
                return Ok(TypeSpecifier::Owned {
                    base_type: Box::new(base_type),
                    ownership: OwnershipKind::BorrowedMut,
                    source_location: start_location,
                });
            }
            let base_type = self.parse_type()?;
            return Ok(TypeSpecifier::Owned {
                base_type: Box::new(base_type),
                ownership: OwnershipKind::Borrowed,
                source_location: start_location,
            });
        }
        if self.check(&TokenType::Tilde) {
            self.advance();
            let base_type = self.parse_type()?;
            return Ok(TypeSpecifier::Owned {
                base_type: Box::new(base_type),
                ownership: OwnershipKind::Shared,
                source_location: start_location,
            });
        }

        let keyword = match &self.peek().token_type {
            TokenType::Keyword(k) => Some(*k),
            _ => None,
        };
        if let Some(k) = keyword {
            match k {
                Keyword::Int => return Ok(self.primitive(PrimitiveType::Integer)),
                Keyword::Int32 => return Ok(self.primitive(PrimitiveType::Integer32)),
                Keyword::Int64 => return Ok(self.primitive(PrimitiveType::Integer64)),
                Keyword::Float => return Ok(self.primitive(PrimitiveType::Float)),
                Keyword::Float32 => return Ok(self.primitive(PrimitiveType::Float32)),
                Keyword::Float64 => return Ok(self.primitive(PrimitiveType::Float64)),
                Keyword::String_ => return Ok(self.primitive(PrimitiveType::String)),
                Keyword::Char => return Ok(self.primitive(PrimitiveType::Char)),
                Keyword::Bool => return Ok(self.primitive(PrimitiveType::Boolean)),
                Keyword::Void => return Ok(self.primitive(PrimitiveType::Void)),
                Keyword::SizeT => return Ok(self.primitive(PrimitiveType::SizeT)),
                Keyword::Array => {
                    self.advance();
                    self.expect(&TokenType::Less, "expected '<' after Array")?;
                    let element_type = self.parse_type()?;
                    self.expect(&TokenType::Greater, "expected '>' to close Array type")?;
                    return Ok(TypeSpecifier::Array {
                        element_type: Box::new(element_type),
                        size: None,
                        source_location: start_location,
                    });
                },
                Keyword::Map_ => {
                    self.advance();
                    self.expect(&TokenType::Less, "expected '<' after Map")?;
                    let key_type = self.parse_type()?;
                    self.expect(&TokenType::Comma, "expected ',' between Map key and value types")?;
                    let value_type = self.parse_type()?;
                    self.expect(&TokenType::Greater, "expected '>' to close Map type")?;
                    return Ok(TypeSpecifier::Map_ {
                        key_type: Box::new(key_type),
                        value_type: Box::new(value_type),
                        source_location: start_location,
                    });
                },
                Keyword::Pointer => {
                    self.advance();
                    self.expect(&TokenType::Less, "expected '<' after Pointer")?;
                    let target_type = self.parse_type()?;
                    self.expect(&TokenType::Greater, "expected '>' to close Pointer type")?;
                    return Ok(TypeSpecifier::Pointer {
                        target_type: Box::new(target_type),
                        is_mutable: false,
                        source_location: start_location,
                    });
                },
                Keyword::MutPointer => {
                    self.advance();
                    self.expect(&TokenType::Less, "expected '<' after MutPointer")?;
                    let target_type = self.parse_type()?;
                    self.expect(&TokenType::Greater, "expected '>' to close MutPointer type")?;
                    return Ok(TypeSpecifier::Pointer {
                        target_type: Box::new(target_type),
                        is_mutable: true,
                        source_location: start_location,
                    });
                },
                _ => {},
            }
        }

        // A user-defined type, possibly dotted, possibly with generic arguments.
        let name = self.parse_dotted_identifier()?;
        proof {
            let n = ((self.pos() - old(self).pos() + 1) / 2) as nat;
            lemma_dotted_text_starts_with_first(old(self).toks(), old(self).pos(), n);
        }
        let ghost e = self.pos();
        if self.check(&TokenType::Less) {
            self.advance();
            let mut type_arguments: Vec<Box<TypeSpecifier>> = Vec::new();
            let first = self.parse_type()?;
            let ghost j0 = self.pos();
            let ghost s0 = shape_of(first);
            type_arguments.push(Box::new(first));
            proof {
                assert(type_arguments@.drop_last() =~= Seq::<Box<TypeSpecifier>>::empty());
                lemma_shapes_of(type_arguments@);
            }
            while self.check(&TokenType::Comma)
                invariant
                    self.moved_from(*old(self)),
                    self.pos() > old(self).pos(),
                    toks == self.toks(),
                    i == old(self).pos(),
                    old(self).cur() is Identifier,
                    dotted_at(toks, i) == Some((name.name@, e)),
                    i < e,
                    token_is(toks, e, TokenType::Less),
                    type_at(toks, e + 1, true) == Some((s0, j0)),
                    e < j0 <= self.pos(),
                    type_arguments@.len() >= 1,
                    shapes_of(type_arguments@).len() == type_arguments@.len(),
                    shapes_of(type_arguments@)[0] == s0,
                    type_arguments_after(toks, j0, true) == match type_arguments_after(toks, self.pos(), true) {
                        Some((rest, m)) => Some((shapes_of(type_arguments@).subrange(1, type_arguments@.len() as int) + rest, m)),
                        None => None,
                    },
                    starts_with(name.name@, ident_name(old(self).cur())@),
                decreases self.toks().len() - self.pos(),
            {
                let ghost before = type_arguments@;
                self.advance();
                let next = self.parse_type()?;
                type_arguments.push(Box::new(next));
                proof {
                    assert(type_arguments@.drop_last() =~= before);
                    assert(shapes_of(type_arguments@) =~= shapes_of(before).push(shape_of(next)));
                    assert(shapes_of(type_arguments@).subrange(1, type_arguments@.len() as int)
                        =~= shapes_of(before).subrange(1, before.len() as int).push(shape_of(next)));
                    match type_arguments_after(toks, self.pos(), true) {
                        Some((rest, m)) => {
                            assert(shapes_of(before).subrange(1, before.len() as int) + (seq![shape_of(next)] + rest)
                                =~= shapes_of(type_arguments@).subrange(1, type_arguments@.len() as int) + rest);
                        },
                        None => {},
                    }
                }
            }
            self.expect(&TokenType::Greater, "expected '>' to close generic type")?;
            let r = TypeSpecifier::Generic { base_type: name, type_arguments, source_location: start_location };
            proof {
                assert(seq![s0] + shapes_of(type_arguments@).subrange(1, type_arguments@.len() as int)
                    =~= shapes_of(type_arguments@));
            }
            return Ok(r);
        }
        Ok(TypeSpecifier::Named { name, source_location: start_location })
    }
}

} // verus!
