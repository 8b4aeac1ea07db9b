//! The grammar of grammar texts.
//!
//! ```text
//! main         = grammar
//! grammar      = rule+
//! rule         = _ symbol _ "=" _ expr _eol _
//! expr         = or
//! or           = and ( _ "/" _ or )*
//! and          = rep_or_neg ( _1 _ !(symbol _ "=") and )*
//! rep_or_neg   = atom_or_par ("*" / "+" / "?")?  /  "!" atom_or_par
//! atom_or_par  = atom / parenth
//! parenth      = "(" _ expr _ ")"
//! atom         = literal / match / dot / symbol
//! literal      = _" ( ("\" .) / (!_" .) )* _"
//! _"           = "\""
//! match        = "[" ( (mchars mbetween*) / mbetween+ ) "]"
//! mchars       = ( !"]" !(. "-") . )+
//! mbetween     = . "-" .
//! dot          = "."
//! symbol       = [_'a-zA-Z0-9] [_'"a-zA-Z0-9]*
//! _            = ( " " / eol )*
//! _eol         = " "* eol
//! _1           = " " / eol
//! eol          = "\r\n" / "\n" / "\r"
//! ```

use vstd::prelude::*;
use crate::expression::and;
use crate::expression::dot;
use crate::expression::dot_view;
use crate::expression::ematch;
use crate::expression::lit;
use crate::expression::lit_view;
use crate::expression::match_view;
use crate::expression::not;
use crate::expression::not_view;
use crate::expression::or;
use crate::expression::ref_rule;
use crate::expression::rep;
use crate::expression::rep_view;
use crate::expression::ExprView;
use crate::expression::MultiExpr;
use crate::expression::SetOfRules;

verus! {

/// A reference to the rule `name`.
pub open spec fn ref_view(name: Seq<char>) -> ExprView {
    ExprView::RuleName(name)
}

/// The ranges of letters and digits.
pub open spec fn alphanumeric() -> Seq<(char, char)> {
    Seq::empty().push(('a', 'z')).push(('A', 'Z')).push(('0', '9'))
}

/// `rule = _ symbol _ "=" _ expr _eol _`
pub open spec fn rule_rule() -> ExprView {
    ExprView::And(
        Seq::empty().push(ref_view("_"@)).push(ref_view("symbol"@)).push(ref_view("_"@)).push(lit_view("="@)).push(ref_view("_"@)).push(ref_view("expr"@)).push(ref_view("_eol"@)).push(ref_view("_"@)),
    )
}

/// `or = and ( _ "/" _ or )*`
pub open spec fn or_rule() -> ExprView {
    ExprView::And(
        Seq::empty().push(ref_view("and"@)).push(rep_view(
                ExprView::And(
                    Seq::empty().push(ref_view("_"@)).push(lit_view("/"@)).push(ref_view("_"@)).push(ref_view("or"@)),
                ),
                0,
                None,
            )),
    )
}

/// `and = rep_or_neg ( _1 _ !(symbol _ "=") and )*`
pub open spec fn and_rule() -> ExprView {
    ExprView::And(
        Seq::empty().push(ref_view("rep_or_neg"@)).push(rep_view(
                ExprView::And(
                    Seq::empty().push(ref_view("_1"@)).push(ref_view("_"@)).push(not_view(
                            ExprView::And(
                                Seq::empty().push(ref_view("symbol"@)).push(ref_view("_"@)).push(lit_view("="@)),
                            ),
                        )).push(ref_view("and"@)),
                ),
                0,
                None,
            )),
    )
}

/// `rep_or_neg = atom_or_par ("*" / "+" / "?")?  /  "!" atom_or_par`
pub open spec fn rep_or_neg_rule() -> ExprView {
    ExprView::Or(
        Seq::empty().push(ExprView::And(
                Seq::empty().push(ref_view("atom_or_par"@)).push(rep_view(
                        ExprView::Or(Seq::empty().push(lit_view("*"@)).push(lit_view("+"@)).push(lit_view("?"@))),
                        0,
                        Some(1nat),
                    )),
            )).push(ExprView::And(Seq::empty().push(lit_view("!"@)).push(ref_view("atom_or_par"@)))),
    )
}

/// `parenth = "(" _ expr _ ")"`
pub open spec fn parenth_rule() -> ExprView {
    ExprView::And(
        Seq::empty().push(lit_view("("@)).push(ref_view("_"@)).push(ref_view("expr"@)).push(ref_view("_"@)).push(lit_view(")"@)),
    )
}

/// `atom = literal / match / dot / symbol`
pub open spec fn atom_rule() -> ExprView {
    ExprView::Or(
        Seq::empty().push(ref_view("literal"@)).push(ref_view("match"@)).push(ref_view("dot"@)).push(ref_view("symbol"@)),
    )
}

/// `literal = _" ( ("\" .) / (!_" .) )* _"`
pub open spec fn literal_rule() -> ExprView {
    ExprView::And(
        Seq::empty().push(ref_view("_\""@)).push(rep_view(
                ExprView::Or(
                    Seq::empty().push(ExprView::And(Seq::empty().push(lit_view("\\"@)).push(dot_view()))).push(ExprView::And(Seq::empty().push(not_view(ref_view("_\""@))).push(dot_view()))),
                ),
                0,
                None,
            )).push(ref_view("_\""@)),
    )
}

/// `match = "[" ( (mchars mbetween*) / mbetween+ ) "]"`
pub open spec fn match_rule() -> ExprView {
    ExprView::And(
        Seq::empty().push(lit_view("["@)).push(ExprView::Or(
                Seq::empty().push(ExprView::And(
                        Seq::empty().push(ref_view("mchars"@)).push(rep_view(ref_view("mbetween"@), 0, None)),
                    )).push(rep_view(ref_view("mbetween"@), 1, None)),
            )).push(lit_view("]"@)),
    )
}

/// `mchars = ( !"]" !(. "-") . )+`
pub open spec fn mchars_rule() -> ExprView {
    rep_view(
        ExprView::And(
            Seq::empty().push(not_view(lit_view("]"@))).push(not_view(ExprView::And(Seq::empty().push(dot_view()).push(lit_view("-"@))))).push(dot_view()),
        ),
        1,
        None,
    )
}

/// `symbol = [_'a-zA-Z0-9] [_'"a-zA-Z0-9]*`
pub open spec fn symbol_rule() -> ExprView {
    ExprView::And(
        Seq::empty().push(match_view("_'"@, alphanumeric())).push(rep_view(match_view("_'\""@, alphanumeric()), 0, None)),
    )
}

/// `eol = "\r\n" / "\n" / "\r"`
pub open spec fn eol_rule() -> ExprView {
    ExprView::Or(Seq::empty().push(lit_view("\r\n"@)).push(lit_view("\n"@)).push(lit_view("\r"@)))
}

/// The rules of the grammar of grammar texts.
pub open spec fn peg_grammar() -> Map<Seq<char>, ExprView> {
    Map::empty().insert("main"@, ref_view("grammar"@)).insert(
        "grammar"@,
        rep_view(ref_view("rule"@), 1, None),
    ).insert("rule"@, rule_rule()).insert("expr"@, ref_view("or"@)).insert("or"@, or_rule()).insert(
        "and"@,
        and_rule(),
    ).insert("rep_or_neg"@, rep_or_neg_rule()).insert(
        "atom_or_par"@,
        ExprView::Or(Seq::empty().push(ref_view("atom"@)).push(ref_view("parenth"@))),
    ).insert("parenth"@, parenth_rule()).insert("atom"@, atom_rule()).insert(
        "literal"@,
        literal_rule(),
    ).insert("_\""@, lit_view("\""@)).insert("match"@, match_rule()).insert(
        "mchars"@,
        mchars_rule(),
    ).insert("mbetween"@, ExprView::And(Seq::empty().push(dot_view()).push(lit_view("-"@)).push(dot_view()))).insert(
        "dot"@,
        lit_view("."@),
    ).insert("symbol"@, symbol_rule()).insert(
        "_"@,
        rep_view(ExprView::Or(Seq::empty().push(lit_view(" "@)).push(ref_view("eol"@))), 0, None),
    ).insert(
        "_eol"@,
        ExprView::And(Seq::empty().push(rep_view(lit_view(" "@), 0, None)).push(ref_view("eol"@))),
    ).insert("_1"@, ExprView::Or(Seq::empty().push(lit_view(" "@)).push(ref_view("eol"@)))).insert(
        "eol"@,
        eol_rule(),
    )
}

/// An empty list of expressions.
fn list() -> (multi: MultiExpr)
    ensures
        multi@ == Seq::<ExprView>::empty(),
{
    let multi = MultiExpr::new(Vec::new());
    assert(multi@ =~= Seq::<ExprView>::empty());
    multi
}

/// The ranges of letters and digits.
fn letters_and_digits() -> (ranges: Vec<(char, char)>)
    ensures
        ranges@ == alphanumeric(),
{
    let mut ranges: Vec<(char, char)> = Vec::new();
    ranges.push(('a', 'z'));
    ranges.push(('A', 'Z'));
    ranges.push(('0', '9'));
    ranges
}

/// A reference to the rule `_`.
fn blank() -> (e: crate::expression::Expression)
    ensures
        e@ == ref_view("_"@),
{
    ref_rule("_")
}

/// The rules of the grammar of grammar texts.
pub fn parse_peg() -> (rules: SetOfRules)
    ensures
        rules@ == peg_grammar(),
{
    let rule = and(
        list().with(blank()).with(ref_rule("symbol")).with(blank()).with(lit("=")).with(
            blank(),
        ).with(ref_rule("expr")).with(ref_rule("_eol")).with(blank()),
    );
    let or_expr = and(
        list().with(ref_rule("and")).with(
            rep(
                and(list().with(blank()).with(lit("/")).with(blank()).with(ref_rule("or"))),
                0,
                None,
            ),
        ),
    );
    let and_expr = and(
        list().with(ref_rule("rep_or_neg")).with(
            rep(
                and(
                    list().with(ref_rule("_1")).with(blank()).with(
                        not(and(list().with(ref_rule("symbol")).with(blank()).with(lit("=")))),
                    ).with(ref_rule("and")),
                ),
                0,
                None,
            ),
        ),
    );
    let rep_or_neg = or(
        list().with(
            and(
                list().with(ref_rule("atom_or_par")).with(
                    rep(or(list().with(lit("*")).with(lit("+")).with(lit("?"))), 0, Some(1)),
                ),
            ),
        ).with(and(list().with(lit("!")).with(ref_rule("atom_or_par")))),
    );
    let atom_or_par = or(list().with(ref_rule("atom")).with(ref_rule("parenth")));
    let parenth = and(
        list().with(lit("(")).with(blank()).with(ref_rule("expr")).with(blank()).with(lit(")")),
    );
    let atom = or(
        list().with(ref_rule("literal")).with(ref_rule("match")).with(ref_rule("dot")).with(
            ref_rule("symbol"),
        ),
    );
    let literal = and(
        list().with(ref_rule("_\"")).with(
            rep(
                or(
                    list().with(and(list().with(lit("\\")).with(dot()))).with(
                        and(list().with(not(ref_rule("_\""))).with(dot())),
                    ),
                ),
                0,
                None,
            ),
        ).with(ref_rule("_\"")),
    );
    let match_expr = and(
        list().with(lit("[")).with(
            or(
                list().with(
                    and(list().with(ref_rule("mchars")).with(rep(ref_rule("mbetween"), 0, None))),
                ).with(rep(ref_rule("mbetween"), 1, None)),
            ),
        ).with(lit("]")),
    );
    let mchars = rep(
        and(
            list().with(not(lit("]"))).with(not(and(list().with(dot()).with(lit("-"))))).with(
                dot(),
            ),
        ),
        1,
        None,
    );
    let mbetween = and(list().with(dot()).with(lit("-")).with(dot()));
    let symbol = and(
        list().with(ematch("_'", letters_and_digits())).with(
            rep(ematch("_'\"", letters_and_digits()), 0, None),
        ),
    );
    let blanks = rep(or(list().with(lit(" ")).with(ref_rule("eol"))), 0, None);
    let blanks_eol = and(list().with(rep(lit(" "), 0, None)).with(ref_rule("eol")));
    let one_blank = or(list().with(lit(" ")).with(ref_rule("eol")));
    let eol = or(list().with(lit("\r\n")).with(lit("\n")).with(lit("\r")));
    SetOfRules::new(Vec::new()).add("main", ref_rule("grammar")).add(
        "grammar",
        rep(ref_rule("rule"), 1, None),
    ).add("rule", rule).add("expr", ref_rule("or")).add("or", or_expr).add("and", and_expr).add(
        "rep_or_neg",
        rep_or_neg,
    ).add("atom_or_par", atom_or_par).add("parenth", parenth).add("atom", atom).add(
        "literal",
        literal,
    ).add("_\"", lit("\"")).add("match", match_expr).add("mchars", mchars).add(
        "mbetween",
        mbetween,
    ).add("dot", lit(".")).add("symbol", symbol).add("_", blanks).add("_eol", blanks_eol).add(
        "_1",
        one_blank,
    ).add("eol", eol)
}

} // verus!
