//! Generic parameters `<T, U>` and `where` clauses `where T: A + B, U: C`.

use vstd::prelude::*;
use crate::ast::{GenericParameter, Identifier, WhereClause};
use crate::error::ParserError;
use crate::lexer::v2::{Keyword, Token, TokenType};
use crate::parser::v2::types::ident_name;
use super::Parser;

verus! {

/// The `n` tokens at `i`, `i + 2`, ... are identifiers, separated by
/// tokens of the separator kind (commas or plus signs), and `names` are
/// their names.
pub open spec fn separated_names(toks: Seq<Token>, i: int, names: Seq<Identifier>, comma: bool) -> bool {
    &&& forall|k: int| 0 <= k < names.len() ==> #[trigger] toks[i + 2 * k].token_type is Identifier
        && names[k].name == ident_name(toks[i + 2 * k].token_type)
    &&& forall|k: int| 1 <= k < names.len() ==> is_separator(#[trigger] toks[i + 2 * k - 1].token_type, comma)
}

/// A comma (or, when `comma` is false, a plus sign).
pub open spec fn is_separator(t: TokenType, comma: bool) -> bool {
    if comma { t is Comma } else { t is Plus }
}

/// Where identifiers separated by separators (commas, or plus signs when
/// `comma` is false) that start at `j` end: the index after the last one.
pub open spec fn names_end(toks: Seq<Token>, j: int, comma: bool) -> Option<int>
    decreases toks.len() - j,
{
    if 0 <= j < toks.len() && toks[j].token_type is Identifier {
        if j + 1 < toks.len() && is_separator(toks[j + 1].token_type, comma) {
            names_end(toks, j + 2, comma)
        } else {
            Some(j + 1)
        }
    } else {
        None
    }
}

/// Where a constraint `T: A + B ...` that starts at `j` ends.
pub open spec fn constraint_end(toks: Seq<Token>, j: int) -> Option<int> {
    if 0 <= j && j + 1 < toks.len() && toks[j].token_type is Identifier && toks[j + 1].token_type is Colon {
        names_end(toks, j + 2, false)
    } else {
        None
    }
}

/// Where constraints separated by commas that start at `j` end.
pub open spec fn constraints_end(toks: Seq<Token>, j: int) -> Option<int>
    decreases toks.len() - j,
{
    match constraint_end(toks, j) {
        Some(k) => if j < k < toks.len() && toks[k].token_type is Comma { constraints_end(toks, k + 1) } else { Some(k) },
        None => None,
    }
}

/// The names of the identifiers separated by separators (commas, or plus
/// signs when `comma` is false) from `j`, as far as `names_end` reads.
pub open spec fn names_from(toks: Seq<Token>, j: int, comma: bool) -> Seq<Seq<char>>
    decreases toks.len() - j,
{
    if 0 <= j < toks.len() && toks[j].token_type is Identifier {
        let n = toks[j].token_type->Identifier_0@;
        if j + 1 < toks.len() && is_separator(toks[j + 1].token_type, comma) {
            seq![n] + names_from(toks, j + 2, comma)
        } else {
            seq![n]
        }
    } else {
        seq![]
    }
}

/// The constraints `T: A + B` separated by commas from `j`, each as its
/// type parameter's name and its bounds' names, as far as
/// `constraints_end` reads.
pub open spec fn where_constraints_from(toks: Seq<Token>, j: int) -> Seq<(Seq<char>, Seq<Seq<char>>)>
    decreases toks.len() - j,
{
    match constraint_end(toks, j) {
        Some(k) => {
            let c = (toks[j].token_type->Identifier_0@, names_from(toks, j + 2, false));
            if j < k < toks.len() && toks[k].token_type is Comma {
                seq![c] + where_constraints_from(toks, k + 1)
            } else {
                seq![c]
            }
        },
        None => seq![],
    }
}

/// The names of identifiers.
pub open spec fn ident_names(ids: Seq<Identifier>) -> Seq<Seq<char>> {
    ids.map_values(|i: Identifier| i.name@)
}

/// A `where` clause as its constraints' type parameter names and bound
/// names.
pub open spec fn where_view(cs: Seq<WhereClause>) -> Seq<(Seq<char>, Seq<Seq<char>>)> {
    cs.map_values(|c: WhereClause| (c.type_param.name@, ident_names(c.constraints@)))
}

/// The names of generic parameters.
pub open spec fn parameter_names(params: Seq<GenericParameter>) -> Seq<Identifier> {
    params.map_values(|p: GenericParameter| p.name)
}

impl Parser {
    /// Parses optional generic parameters `<T, U, ...>`; without a `<` there
    /// are none. The parameters have no constraints and no default.
    pub fn parse_generic_parameters(&mut self) -> (r: Result<Vec<GenericParameter>, ParserError>)
        requires
            old(self).wf(),
        ensures
            final(self).moved_from(*old(self)),
            !old(self).spec_check(TokenType::Less) ==> (r matches Ok(ps) && ps@.len() == 0
                && final(self).pos() == old(self).pos()),
            r matches Ok(ps) ==> (ps@.len() > 0 <==> old(self).spec_check(TokenType::Less)),
            r matches Ok(ps) ==> ps@.len() > 0 ==> {
                &&& final(self).pos() == old(self).pos() + 2 * ps@.len() + 1
                &&& separated_names(old(self).toks(), old(self).pos() + 1, parameter_names(ps@), true)
                &&& final(self).kind_at(final(self).pos() - 1) is Greater
            },
            r matches Ok(ps) ==> forall|k: int| 0 <= k < ps@.len() ==>
                (#[trigger] ps@[k]).constraints@.len() == 0 && ps@[k].default_type is None,
            old(self).spec_check(TokenType::Less) ==> (r is Ok <==> (names_end(old(self).toks(), old(self).pos() + 1, true)
                matches Some(k) && k < old(self).toks().len() && old(self).kind_at(k) is Greater)),
            old(self).spec_check(TokenType::Less) ==> (r matches Ok(ps)
                ==> names_end(old(self).toks(), old(self).pos() + 1, true) == Some(final(self).pos() - 1)
                && ident_names(parameter_names(ps@)) == names_from(old(self).toks(), old(self).pos() + 1, true)),
    {
        if !self.check(&TokenType::Less) {
            return Ok(Vec::new());
        }
        self.advance();
        let ghost p0 = old(self).pos() + 1;
        let mut params: Vec<GenericParameter> = Vec::new();
        let start_location = self.current_location();
        let name = self.parse_identifier()?;
        params.push(GenericParameter {
            name,
            constraints: Vec::new(),
            default_type: None,
            source_location: start_location,
        });
        proof {
            assert(ident_names(parameter_names(params@)).drop_last() =~= Seq::<Seq<char>>::empty());
            assert(Seq::<Seq<char>>::empty() + names_from(self.toks(), p0, true) =~= names_from(self.toks(), p0, true));
        }
        while self.check(&TokenType::Comma)
            invariant
                self.moved_from(*old(self)),
                p0 == old(self).pos() + 1,
                old(self).spec_check(TokenType::Less),
                params@.len() >= 1,
                self.pos() == p0 + 2 * params@.len() - 1,
                separated_names(self.toks(), p0, parameter_names(params@), true),
                names_end(self.toks(), p0, true) == names_end(self.toks(), self.pos() - 1, true),
                names_from(self.toks(), p0, true) == ident_names(parameter_names(params@)).drop_last()
                    + names_from(self.toks(), self.pos() - 1, true),
                forall|k: int| 0 <= k < params@.len() ==>
                    (#[trigger] params@[k]).constraints@.len() == 0 && params@[k].default_type is None,
            decreases self.toks().len() - self.pos(),
        {
            let ghost q = self.pos();
            proof {
                let n = params@.len();
                assert(self.toks()[p0 + 2 * (n - 1)].token_type is Identifier);
                assert(names_end(self.toks(), q - 1, true) == names_end(self.toks(), q + 1, true));
                assert(parameter_names(params@)[n - 1] == params@.last().name);
                assert(names_from(self.toks(), q - 1, true)
                    == seq![params@.last().name.name@] + names_from(self.toks(), q + 1, true));
            }
            self.advance();
            let param_location = self.current_location();
            let param_name = self.parse_identifier()?;
            let ghost before = params@;
            params.push(GenericParameter {
                name: param_name,
                constraints: Vec::new(),
                default_type: None,
                source_location: param_location,
            });
            proof {
                let nb = ident_names(parameter_names(before));
                assert(ident_names(parameter_names(params@)).drop_last() =~= nb);
                assert(nb =~= nb.drop_last().push(before.last().name.name@));
                assert(nb.drop_last() + (seq![before.last().name.name@] + names_from(self.toks(), q + 1, true))
                    =~= nb + names_from(self.toks(), q + 1, true));
                let n = before.len();
                assert(parameter_names(params@) =~= parameter_names(before).push(params@[n as int].name));
                assert forall|k: int| 0 <= k < params@.len() implies #[trigger] self.toks()[p0 + 2 * k].token_type is Identifier
                    && parameter_names(params@)[k].name == ident_name(self.toks()[p0 + 2 * k].token_type) by {
                    if k < n {
                        assert(parameter_names(params@)[k] == parameter_names(before)[k]);
                    }
                }
                assert forall|k: int| 1 <= k < params@.len() implies is_separator(#[trigger] self.toks()[p0 + 2 * k - 1].token_type, true) by {
                    if k < n {
                    }
                }
            }
        }
        proof {
            let n = params@.len();
            assert(self.toks()[p0 + 2 * (n - 1)].token_type is Identifier);
            assert(names_end(self.toks(), self.pos() - 1, true) == Some(self.pos()));
            let ns = ident_names(parameter_names(params@));
            assert(parameter_names(params@)[n - 1] == params@.last().name);
            assert(names_from(self.toks(), self.pos() - 1, true) == seq![params@.last().name.name@]);
            assert(ns =~= ns.drop_last().push(params@.last().name.name@));
            assert(ns.drop_last() + seq![params@.last().name.name@] =~= ns);
        }
        self.expect(&TokenType::Greater, "expected '>' to close generic parameters")?;
        Ok(params)
    }

    /// Parses an optional `where` clause, `where C (, C)*`; without `where`
    /// there is none.
    pub fn parse_where_clause(&mut self) -> (r: Result<Vec<WhereClause>, ParserError>)
        requires
            old(self).wf(),
        ensures
            final(self).moved_from(*old(self)),
            !old(self).spec_check_keyword(Keyword::Where) ==> (r matches Ok(cs) && cs@.len() == 0
                && final(self).pos() == old(self).pos()),
            r matches Ok(cs) ==> (cs@.len() > 0 <==> old(self).spec_check_keyword(Keyword::Where)),
            r matches Ok(cs) ==> forall|k: int| 0 <= k < cs@.len() ==> (#[trigger] cs@[k]).constraints@.len() >= 1,
            r matches Ok(cs) ==> (cs@.len() > 0 ==> !final(self).spec_check(TokenType::Comma)),
            old(self).spec_check_keyword(Keyword::Where) ==> (r is Ok <==> constraints_end(old(self).toks(), old(self).pos() + 1) is Some),
            r is Ok && old(self).spec_check_keyword(Keyword::Where)
                ==> constraints_end(old(self).toks(), old(self).pos() + 1) == Some(final(self).pos()),
            old(self).spec_check_keyword(Keyword::Where) ==> (r matches Ok(cs)
                ==> where_view(cs@) == where_constraints_from(old(self).toks(), old(self).pos() + 1)),
    {
        if !self.check_keyword(Keyword::Where) {
            return Ok(Vec::new());
        }
        self.advance();
        let ghost toks = old(self).toks();
        let ghost p1 = old(self).pos() + 1;
        let mut clauses: Vec<WhereClause> = Vec::new();
        let first = self.parse_where_constraint()?;
        clauses.push(first);
        proof {
            assert(where_view(clauses@) =~= seq![(first.type_param.name@, ident_names(first.constraints@))]);
            if !self.spec_check(TokenType::Comma) {
                assert(where_view(clauses@) + Seq::<(Seq<char>, Seq<Seq<char>>)>::empty() =~= where_view(clauses@));
            }
        }
        while self.check(&TokenType::Comma)
            invariant
                self.moved_from(*old(self)),
                old(self).spec_check_keyword(Keyword::Where),
                toks == self.toks(),
                p1 == old(self).pos() + 1,
                clauses@.len() >= 1,
                forall|k: int| 0 <= k < clauses@.len() ==> (#[trigger] clauses@[k]).constraints@.len() >= 1,
                constraints_end(self.toks(), old(self).pos() + 1) == (
                    if self.spec_check(TokenType::Comma) { constraints_end(self.toks(), self.pos() + 1) } else { Some(self.pos()) }),
                where_constraints_from(toks, p1) == where_view(clauses@) + (
                    if self.spec_check(TokenType::Comma) { where_constraints_from(toks, self.pos() + 1) } else { seq![] }),
            decreases self.toks().len() - self.pos(),
        {
            self.advance();
            let ghost q = self.pos();
            let next = self.parse_where_constraint()?;
            let ghost before = clauses@;
            clauses.push(next);
            proof {
                assert(where_view(clauses@) =~= where_view(before).push((next.type_param.name@, ident_names(next.constraints@))));
                if self.spec_check(TokenType::Comma) {
                    assert(where_view(before) + (seq![(next.type_param.name@, ident_names(next.constraints@))]
                        + where_constraints_from(toks, self.pos() + 1)) =~= where_view(clauses@) + where_constraints_from(toks, self.pos() + 1));
                } else {
                    assert(where_view(before) + seq![(next.type_param.name@, ident_names(next.constraints@))]
                        =~= where_view(clauses@) + Seq::<(Seq<char>, Seq<Seq<char>>)>::empty());
                }
            }
        }
        proof {
            assert(where_view(clauses@) + Seq::<(Seq<char>, Seq<Seq<char>>)>::empty() =~= where_view(clauses@));
        }
        Ok(clauses)
    }

    /// Parses one constraint `T: A + B + ...`.
    pub fn parse_where_constraint(&mut self) -> (r: Result<WhereClause, ParserError>)
        requires
            old(self).wf(),
        ensures
            final(self).moved_from(*old(self)),
            r is Ok ==> final(self).pos() > old(self).pos(),
            r matches Ok(c) ==> {
                &&& old(self).cur() is Identifier
                &&& c.type_param.name == ident_name(old(self).cur())
                &&& old(self).kind_at(old(self).pos() + 1) is Colon
                &&& c.constraints@.len() >= 1
                &&& final(self).pos() == old(self).pos() + 2 * c.constraints@.len() + 1
                &&& separated_names(old(self).toks(), old(self).pos() + 2, c.constraints@, false)
                &&& !final(self).spec_check(TokenType::Plus)
            },
            r is Ok <==> constraint_end(old(self).toks(), old(self).pos()) is Some,
            r is Ok ==> constraint_end(old(self).toks(), old(self).pos()) == Some(final(self).pos()),
            r matches Ok(c) ==> (c.type_param.name@ == old(self).cur()->Identifier_0@
                && ident_names(c.constraints@) == names_from(old(self).toks(), old(self).pos() + 2, false)),
    {
        let start_location = self.current_location();
        let type_param = self.parse_identifier()?;
        self.expect(&TokenType::Colon, "expected ':' after type parameter in where clause")?;
        let ghost p0 = old(self).pos() + 2;
        let mut constraints: Vec<Identifier> = Vec::new();
        let first = self.parse_identifier()?;
        constraints.push(first);
        proof {
            assert(ident_names(constraints@).drop_last() =~= Seq::<Seq<char>>::empty());
            assert(Seq::<Seq<char>>::empty() + names_from(self.toks(), p0, false) =~= names_from(self.toks(), p0, false));
        }
        while self.check(&TokenType::Plus)
            invariant
                self.moved_from(*old(self)),
                p0 == old(self).pos() + 2,
                old(self).cur() is Identifier,
                old(self).kind_at(old(self).pos() + 1) is Colon,
                type_param.name == ident_name(old(self).cur()),
                constraints@.len() >= 1,
                self.pos() == p0 + 2 * constraints@.len() - 1,
                separated_names(self.toks(), p0, constraints@, false),
                names_end(self.toks(), p0, false) == names_end(self.toks(), self.pos() - 1, false),
                names_from(self.toks(), p0, false) == ident_names(constraints@).drop_last()
                    + names_from(self.toks(), self.pos() - 1, false),
            decreases self.toks().len() - self.pos(),
        {
            let ghost q = self.pos();
            proof {
                let n = constraints@.len();
                assert(self.toks()[p0 + 2 * (n - 1)].token_type is Identifier);
                assert(names_end(self.toks(), q - 1, false) == names_end(self.toks(), q + 1, false));
                assert(names_from(self.toks(), q - 1, false)
                    == seq![constraints@.last().name@] + names_from(self.toks(), q + 1, false));
            }
            self.advance();
            let next = self.parse_identifier()?;
            let ghost before = constraints@;
            constraints.push(next);
            proof {
                assert(ident_names(constraints@).drop_last() =~= ident_names(before));
                assert(ident_names(before) =~= ident_names(before).drop_last().push(before.last().name@));
                assert(ident_names(before).drop_last() + (seq![before.last().name@] + names_from(self.toks(), q + 1, false))
                    =~= ident_names(before) + names_from(self.toks(), q + 1, false));
                let n = before.len();
                assert forall|k: int| 0 <= k < constraints@.len() implies #[trigger] self.toks()[p0 + 2 * k].token_type is Identifier
                    && constraints@[k].name == ident_name(self.toks()[p0 + 2 * k].token_type) by {
                    if k < n {
                        assert(constraints@[k] == before[k]);
                    }
                }
                assert forall|k: int| 1 <= k < constraints@.len() implies is_separator(#[trigger] self.toks()[p0 + 2 * k - 1].token_type, false) by {
                    if k < n {
                    }
                }
            }
        }
        proof {
            let n = constraints@.len();
            assert(self.toks()[p0 + 2 * (n - 1)].token_type is Identifier);
            assert(names_end(self.toks(), self.pos() - 1, false) == Some(self.pos()));
            assert(names_from(self.toks(), self.pos() - 1, false) == seq![constraints@.last().name@]);
            assert(ident_names(constraints@) =~= ident_names(constraints@).drop_last().push(constraints@.last().name@));
            assert(ident_names(constraints@).drop_last() + seq![constraints@.last().name@] =~= ident_names(constraints@));
        }
        Ok(WhereClause { type_param, constraints, source_location: start_location })
    }
}

} // verus!
