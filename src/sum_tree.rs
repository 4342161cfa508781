//! A tree for sums of integer literals such as `1+20+3`: the text is split at
//! its first `+`, each side in turn.

use vstd::prelude::*;

use nom::FindSubstring;

use crate::lexer::{digits_value, is_digit, lemma_digits_value_mono};

verus! {

/// A sum as a tree.
#[derive(Debug, PartialEq)]
pub enum Tree {
    Root { operation: char, left_child: Box<Tree>, right_child: Box<Tree> },
    Leaf(i32),
    Nil,
}

/// How many decimal digits `s` starts with.
pub open spec fn digit_prefix_len(s: Seq<char>) -> nat
    decreases s.len(),
{
    if s.len() > 0 && is_digit(s[0]) {
        1 + digit_prefix_len(s.drop_first())
    } else {
        0
    }
}

/// The position of the first `+` in `s`.
pub open spec fn first_plus(s: Seq<char>) -> Option<int>
    decreases s.len(),
{
    if s.len() == 0 {
        None
    } else if s[0] == '+' {
        Some(0)
    } else {
        match first_plus(s.drop_first()) {
            Some(i) => Some(i + 1),
            None => None,
        }
    }
}

pub proof fn lemma_first_plus(s: Seq<char>)
    ensures
        first_plus(s) matches Some(i) ==> 0 <= i < s.len() && s[i] == '+',
    decreases s.len(),
{
    if s.len() > 0 && s[0] != '+' {
        lemma_first_plus(s.drop_first());
    }
}

/// The text before the first `+` holds none.
pub proof fn lemma_first_plus_prefix(s: Seq<char>)
    ensures
        first_plus(s) matches Some(i) ==> first_plus(s.take(i)) is None,
    decreases s.len(),
{
    if s.len() > 0 && s[0] != '+' {
        lemma_first_plus_prefix(s.drop_first());
        lemma_first_plus(s.drop_first());
        match first_plus(s.drop_first()) {
            Some(i) => {
                assert(s.take(i + 1).drop_first() =~= s.drop_first().take(i));
                assert(s.take(i + 1)[0] == s[0]);
            },
            None => {},
        }
    }
}

pub proof fn lemma_digit_prefix_len(s: Seq<char>)
    ensures
        digit_prefix_len(s) <= s.len(),
        forall|i: int| 0 <= i < digit_prefix_len(s) ==> is_digit(#[trigger] s[i]),
    decreases s.len(),
{
    if s.len() > 0 && is_digit(s[0]) {
        lemma_digit_prefix_len(s.drop_first());
        assert forall|i: int| 0 <= i < digit_prefix_len(s) implies is_digit(#[trigger] s[i]) by {
            if i > 0 {
                assert(s[i] == s.drop_first()[i - 1]);
            }
        }
    }
}

/// Whether a piece of a sum is empty or starts with digits whose value fits in an `i32`.
pub open spec fn piece_ok(s: Seq<char>) -> bool {
    s.len() == 0 || (is_digit(s[0]) && digits_value(s.take(digit_prefix_len(s) as int)) <= i32::MAX)
}

/// Whether every piece of `s` between `+` signs is empty or starts with
/// digits whose value fits in an `i32`.
pub open spec fn sum_ok(s: Seq<char>) -> bool
    decreases s.len(),
{
    if s.len() == 0 {
        true
    } else {
        match first_plus(s) {
            Some(i) => if 0 <= i < s.len() {
                piece_ok(s.take(i)) && sum_ok(s.skip(i + 1))
            } else {
                false
            },
            None => piece_ok(s),
        }
    }
}

/// The tree of `s`: empty text is `Nil`; otherwise it is split at its first
/// `+`; text without a `+` is a leaf holding the value of its leading digits.
pub open spec fn tree_of(s: Seq<char>) -> Tree
    decreases s.len(),
{
    if s.len() == 0 {
        Tree::Nil
    } else {
        match first_plus(s) {
            Some(i) => if 0 <= i < s.len() {
                Tree::Root {
                    operation: '+',
                    left_child: Box::new(tree_of(s.take(i))),
                    right_child: Box::new(tree_of(s.skip(i + 1))),
                }
            } else {
                Tree::Nil
            },
            None => Tree::Leaf(digits_value(s.take(digit_prefix_len(s) as int)) as i32),
        }
    }
}

/// Relies on nom's `digit1`: on text that starts with a decimal digit it
/// returns the longest prefix of decimal digits; otherwise it fails.
#[verifier::external_body]
fn parse_digit(input: &str) -> (r: Option<String>)
    ensures
        r is None <==> (input@.len() == 0 || !is_digit(input@[0])),
        r matches Some(d) ==> d@ == input@.take(digit_prefix_len(input@) as int),
{
    match nom::character::complete::digit1::<&str, nom::error::Error<&str>>(input) {
        Ok((_, digits)) => Some(digits.to_string()),
        Err(_) => None,
    }
}

/// Relies on nom's `FindSubstring` for `&str`, which is `str::find`: the
/// byte position of the first `+`, which is its character position in
/// ASCII text.
#[verifier::external_body]
fn find_plus(input: &str) -> (r: Option<usize>)
    requires
        input.is_ascii(),
    ensures
        r matches Some(i) ==> first_plus(input@) == Some(i as int),
        r is None ==> first_plus(input@) is None,
{
    input.find_substring("+")
}

/// The position of the first `+` in ASCII text, with the operator.
fn parse_char(input: &str) -> (r: (Option<usize>, char))
    requires
        input.is_ascii(),
    ensures
        r.1 == '+',
        r.0 matches Some(i) ==> first_plus(input@) == Some(i as int),
        r.0 is None ==> first_plus(input@) is None,
{
    (find_plus(input), '+')
}

/// The value of the decimal digits `d`.
fn digits_to_i32(d: &String) -> (r: i32)
    requires
        d@.len() > 0,
        forall|i: int| 0 <= i < d@.len() ==> is_digit(#[trigger] d@[i]),
        digits_value(d@) <= i32::MAX,
    ensures
        r == digits_value(d@),
{
    let n = d.as_str().unicode_len();
    let mut value: i32 = 0;
    let mut i: usize = 0;
    while i < n
        invariant
            n == d@.len(),
            i <= n,
            forall|k: int| 0 <= k < d@.len() ==> is_digit(#[trigger] d@[k]),
            digits_value(d@) <= i32::MAX,
            value == digits_value(d@.take(i as int)),
        decreases n - i,
    {
        let c = d.as_str().get_char(i);
        assert(d@.take(i + 1).drop_last() =~= d@.take(i as int));
        proof {
            lemma_digits_value_mono(d@, i as int + 1);
        }
        value = value * 10 + (c as u32 - '0' as u32) as i32;
        i += 1;
    }
    assert(d@.take(n as int) =~= d@);
    value
}

/// A leaf holding the value of the digits that `input` starts with.
fn create_leaf(input: &str) -> (r: Tree)
    requires
        input@.len() > 0,
        piece_ok(input@),
    ensures
        r == Tree::Leaf(digits_value(input@.take(digit_prefix_len(input@) as int)) as i32),
{
    proof {
        lemma_digit_prefix_len(input@);
    }
    match parse_digit(input) {
        Some(d) => {
            assert forall|i: int| 0 <= i < d@.len() implies is_digit(#[trigger] d@[i]) by {
                assert(d@[i] == input@[i]);
            }
            Tree::Leaf(digits_to_i32(&d))
        },
        None => Tree::Nil,
    }
}

/// A root joining two subtrees with an operator.
fn create_root(l_child: Tree, r_child: Tree, op: char) -> (r: Tree)
    ensures
        r == (Tree::Root { operation: op, left_child: Box::new(l_child), right_child: Box::new(r_child) }),
{
    Tree::Root { left_child: Box::new(l_child), right_child: Box::new(r_child), operation: op }
}

/// The tree of a sum written in ASCII.
pub fn create_tree(input: &str) -> (r: Tree)
    requires
        input.is_ascii(),
        sum_ok(input@),
    ensures
        r == tree_of(input@),
    decreases input@.len(),
{
    if input.unicode_len() == 0 {
        return Tree::Nil;
    }
    let (op_pos, op) = parse_char(input);
    proof {
        lemma_first_plus(input@);
        lemma_first_plus_prefix(input@);
    }
    match op_pos {
        Some(pos) => {
            let n = input.unicode_len();
            let left = input.substring_ascii(0, pos);
            let right = input.substring_ascii(pos + 1, n);
            assert(left@ =~= input@.take(pos as int));
            assert(right@ =~= input@.skip(pos + 1));
            let left_child = create_tree(left);
            let right_child = create_tree(right);
            create_root(left_child, right_child, op)
        },
        None => create_leaf(input),
    }
}

/// The tree of a sum written in ASCII.
pub fn expr_parser(input: &str) -> (r: Tree)
    requires
        input.is_ascii(),
        sum_ok(input@),
    ensures
        r == tree_of(input@),
{
    create_tree(input)
}

} // verus!
