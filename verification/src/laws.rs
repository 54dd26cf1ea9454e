//! What holds of the transpiler as a whole, beyond what each function states of itself.

use vstd::prelude::*;
use vstd::string::{is_ascii_spec_bytes, StringSliceAdditionalSpecFns};
use crate::ascii::{DIGIT_ZERO, DOT};
use crate::ast::{ExpressionView, StatementView};
use crate::classify::{classify, is_array_method, is_known_module, starts_lowercase, ReferenceKind};
use crate::codegen::{
    argument_text, array_method_text, call_text, expression_text, expression_texts, line,
    namespace_text, statement_text,
};
use crate::error::{ParseError, ParseErrorKind};
use crate::grammar::{
    member_call, nested_path, parse_expression, parse_optional_args, parse_postfix,
    parse_primary, parse_statement_at, parse_tokens, reference_statement, reference_width,
    segments_at, skip_trivia,
};
use crate::lexer::{decimal_value, integer_value, is_word};
use crate::bytes::is_digit;
use crate::number::{
    all_digits, decimal_digits, decimal_text, digits_value, integer_text,
    lemma_digits_value_prefix, significant_len, zeros,
};
use crate::token::Decimal;
use crate::progress::lemma_optional_args_forward;
use crate::token::{is_delimiter, is_operator, token_at, Delimiter, Operator, TokenView};

verus! {

proof fn lemma_method_names()
    ensures
        "append".spec_bytes().len() == 6,
        "append".spec_bytes()[0] == 97,
        "length".spec_bytes().len() == 6,
        "length".spec_bytes()[0] == 108,
        "size".spec_bytes().len() == 4,
        "get".spec_bytes().len() == 3,
        "get".spec_bytes()[0] == 103,
        "at".spec_bytes().len() == 2,
        "set".spec_bytes().len() == 3,
        "set".spec_bytes()[0] == 115,
{
    reveal_strlit("append");
    reveal_strlit("length");
    reveal_strlit("size");
    reveal_strlit("get");
    reveal_strlit("at");
    reveal_strlit("set");
    is_ascii_spec_bytes("append");
    is_ascii_spec_bytes("length");
    is_ascii_spec_bytes("size");
    is_ascii_spec_bytes("get");
    is_ascii_spec_bytes("at");
    is_ascii_spec_bytes("set");
}

/// The texts of a list of expressions are the texts of its items, in their order.
pub proof fn lemma_texts_in_order(es: Seq<ExpressionView>)
    ensures
        expression_texts(es).len() == es.len(),
        forall|i: int|
            0 <= i < es.len() ==> #[trigger] expression_texts(es)[i] == expression_text(es[i]),
    decreases es.len(),
{
    if es.len() > 0 {
        lemma_texts_in_order(es.drop_last());
        assert forall|i: int| 0 <= i < es.len() implies #[trigger] expression_texts(es)[i]
            == expression_text(es[i]) by {
            if i < es.len() - 1 {
                assert(es.drop_last()[i] == es[i]);
            }
        }
    }
}

/// The table of the array methods, over a rendered receiver and rendered
/// arguments: `append` inserts at the end, `length` and `size` ask for the
/// element count, `get` and `at` read at an index, and `set` with two
/// arguments or more writes the second at the index that the first gives.
pub proof fn lemma_array_method_table(array: Seq<u8>, method: Seq<u8>, args: Seq<Seq<u8>>)
    ensures
        method == "append".spec_bytes() ==> array_method_text(array, method, args) == array
            + ".push_back(".spec_bytes() + argument_text(args) + ")".spec_bytes(),
        method == "length".spec_bytes() || method == "size".spec_bytes() ==> array_method_text(
            array,
            method,
            args,
        ) == array + ".size()".spec_bytes(),
        method == "get".spec_bytes() || method == "at".spec_bytes() ==> array_method_text(
            array,
            method,
            args,
        ) == array + "[".spec_bytes() + argument_text(args) + "]".spec_bytes(),
        method == "set".spec_bytes() && args.len() >= 2 ==> array_method_text(array, method, args)
            == array + "[".spec_bytes() + args[0] + "] = ".spec_bytes() + args[1],
{
    lemma_method_names();
}

/// An array method on a variable is read as an array operation, in an
/// expression and as a statement alike. Where `name` begins with a lowercase
/// letter and is no module, and `method` is an array method, the classifier
/// says so, both readings hold `name`, `method` and the arguments, and both
/// render by the table of the array methods: the statement's text is the
/// expression's text on a line of its own.
pub proof fn lemma_array_sugar_reading(
    name: Seq<u8>,
    method: Seq<u8>,
    args: Seq<ExpressionView>,
    indent: Seq<u8>,
)
    requires
        starts_lowercase(name),
        !is_known_module(name),
        is_array_method(method),
    ensures
        classify(seq![name, method]) == ReferenceKind::ArraySugar,
        member_call(ExpressionView::Variable(name), method, args)
            == (ExpressionView::ArrayMethodCall {
            array: Box::new(ExpressionView::Variable(name)),
            method,
            args,
        }),
        reference_statement(ReferenceKind::ArraySugar, seq![name, method], args)
            == (StatementView::ArrayMethodCall { array_var: name, method, args }),
        expression_text(member_call(ExpressionView::Variable(name), method, args))
            == array_method_text(name, method, expression_texts(args)),
        statement_text(
            reference_statement(ReferenceKind::ArraySugar, seq![name, method], args),
            indent,
        ) == line(indent, array_method_text(name, method, expression_texts(args))),
{
    let segments = seq![name, method];
    assert(segments[0] == name && segments[1] == method);
    let call = ExpressionView::ArrayMethodCall {
        array: Box::new(ExpressionView::Variable(name)),
        method,
        args,
    };
    assert(expression_text(ExpressionView::Variable(name)) == name);
    assert(expression_text(call) == array_method_text(name, method, expression_texts(args)));
}

/// A name without a dot is its own namespace path.
pub proof fn lemma_namespace_text_of_name(name: Seq<u8>)
    requires
        !name.contains(DOT),
    ensures
        namespace_text(name) == name,
    decreases name.len(),
{
    if name.len() > 0 {
        assert(name.last() == name[name.len() - 1]);
        assert forall|i: int| 0 <= i < name.drop_last().len() implies name.drop_last()[i]
            != DOT by {
            assert(name.drop_last()[i] == name[i]);
        }
        lemma_namespace_text_of_name(name.drop_last());
        assert(name.drop_last().push(name.last()) =~= name);
    }
}

/// The namespace path of a text followed by a name is the path of the text, then the name.
pub proof fn lemma_namespace_text_then_name(path: Seq<u8>, name: Seq<u8>)
    requires
        !name.contains(DOT),
    ensures
        namespace_text(path + name) == namespace_text(path) + name,
    decreases name.len(),
{
    if name.len() == 0 {
        assert(path + name =~= path);
        assert(namespace_text(path) + name =~= namespace_text(path));
    } else {
        let whole = path + name;
        assert(whole.last() == name.last());
        assert(name.last() == name[name.len() - 1]);
        assert(whole.drop_last() =~= path + name.drop_last());
        assert forall|i: int| 0 <= i < name.drop_last().len() implies name.drop_last()[i]
            != DOT by {
            assert(name.drop_last()[i] == name[i]);
        }
        lemma_namespace_text_then_name(path, name.drop_last());
        assert(namespace_text(path) + name =~= (namespace_text(path) + name.drop_last()).push(
            name.last(),
        ));
    }
}

/// A call into a namespace within a module names the module, the namespace and
/// the function in that order, with `::` between each two, and then the
/// arguments in their order.
pub proof fn lemma_nested_call_text(
    module: Seq<u8>,
    sub: Seq<u8>,
    function: Seq<u8>,
    args: Seq<Seq<u8>>,
)
    requires
        !module.contains(DOT),
        !sub.contains(DOT),
    ensures
        call_text(nested_path(module, sub), function, args) == module + "::".spec_bytes() + sub
            + "::".spec_bytes() + function + "(".spec_bytes() + argument_text(args)
            + ")".spec_bytes(),
{
    lemma_namespace_text_of_name(module);
    let head = module + seq![DOT];
    assert(head.drop_last() =~= module);
    assert(namespace_text(head) == module + "::".spec_bytes());
    lemma_namespace_text_then_name(head, sub);
    assert(nested_path(module, sub) =~= head + sub);
}

/// A word holds no dot, so the name of a module, as the lexer yields it, is
/// one segment of a path.
pub proof fn lemma_word_has_no_dot(name: Seq<u8>)
    requires
        is_word(name),
    ensures
        !name.contains(DOT),
{
}

/// A statement that calls into a namespace within a module renders the
/// three names in their order with `::` between each two, and the arguments
/// in their order.
pub proof fn lemma_nested_call_statement(
    module: Seq<u8>,
    sub: Seq<u8>,
    function: Seq<u8>,
    args: Seq<ExpressionView>,
    indent: Seq<u8>,
)
    requires
        !module.contains(DOT),
        !sub.contains(DOT),
    ensures
        statement_text(
            reference_statement(
                ReferenceKind::NestedModuleCall,
                seq![module, sub, function],
                args,
            ),
            indent,
        ) == line(
            indent,
            module + "::".spec_bytes() + sub + "::".spec_bytes() + function + "(".spec_bytes()
                + argument_text(expression_texts(args)) + ")".spec_bytes(),
        ),
        expression_text(
            ExpressionView::FunctionCall { module: nested_path(module, sub), function, args },
        ) == module + "::".spec_bytes() + sub + "::".spec_bytes() + function + "(".spec_bytes()
            + argument_text(expression_texts(args)) + ")".spec_bytes(),
{
    lemma_nested_call_text(module, sub, function, expression_texts(args));
    let segments = seq![module, sub, function];
    assert(segments[0] == module && segments[1] == sub && segments[2] == function);
}

/// No statement starts with an operator: at such a token the parser fails, and
/// a token sequence whose first statement would start with one is no program,
/// whatever follows.
pub proof fn lemma_operator_starts_no_statement(ts: Seq<TokenView>, pos: nat, operator: Operator)
    requires
        token_at(ts, pos) == TokenView::Operator(operator),
    ensures
        parse_statement_at(ts, pos) == Err::<(StatementView, nat), ParseError>(
            ParseError { kind: ParseErrorKind::UnexpectedToken, position: pos as usize },
        ),
        pos == skip_trivia(ts, 0) ==> parse_tokens(ts) == Err::<Seq<StatementView>, ParseError>(
            ParseError { kind: ParseErrorKind::UnexpectedToken, position: pos as usize },
        ),
{
}

proof fn lemma_module_reference_reads_alike(ts: Seq<TokenView>, pos: nat, indent: Seq<u8>)
    requires
        pos <= ts.len(),
        classify(segments_at(ts, pos)) == ReferenceKind::NestedModuleCall || classify(
            segments_at(ts, pos),
        ) == ReferenceKind::ModuleCall,
        parse_statement_at(ts, pos) is Ok,
        !is_delimiter(token_at(ts, parse_statement_at(ts, pos)->Ok_0.1), Delimiter::Dot),
        !is_operator(token_at(ts, parse_statement_at(ts, pos)->Ok_0.1), Operator::Plus),
    ensures
        parse_expression(ts, pos) is Ok,
        parse_expression(ts, pos)->Ok_0.1 == parse_statement_at(ts, pos)->Ok_0.1,
        statement_text(parse_statement_at(ts, pos)->Ok_0.0, indent) == line(
            indent,
            expression_text(parse_expression(ts, pos)->Ok_0.0),
        ),
{
    let segments = segments_at(ts, pos);
    let kind = classify(segments);
    let width = reference_width(kind);
    lemma_optional_args_forward(ts, pos + width);
    assert(token_at(ts, pos) is Identifier);
    assert(is_delimiter(token_at(ts, pos + 1), Delimiter::Dot));
    assert(parse_optional_args(ts, pos + width) is Ok);
    let (args, end) = parse_optional_args(ts, pos + width)->Ok_0;
    assert(parse_statement_at(ts, pos)->Ok_0.1 == end);
    assert(parse_primary(ts, pos) is Ok);
    let call = parse_primary(ts, pos)->Ok_0.0;
    assert(parse_primary(ts, pos)->Ok_0.1 == end);
    assert(parse_postfix(ts, end, call) == Ok::<(ExpressionView, nat), ParseError>((call, end)));
    assert(parse_expression(ts, pos) == Ok::<(ExpressionView, nat), ParseError>((call, end)));
}

proof fn lemma_member_reference_reads_alike(ts: Seq<TokenView>, pos: nat, indent: Seq<u8>)
    requires
        pos <= ts.len(),
        classify(segments_at(ts, pos)) == ReferenceKind::ArraySugar || classify(
            segments_at(ts, pos),
        ) == ReferenceKind::GenericMethod,
        parse_statement_at(ts, pos) is Ok,
        !is_delimiter(token_at(ts, parse_statement_at(ts, pos)->Ok_0.1), Delimiter::Dot),
        !is_operator(token_at(ts, parse_statement_at(ts, pos)->Ok_0.1), Operator::Plus),
    ensures
        parse_expression(ts, pos) is Ok,
        parse_expression(ts, pos)->Ok_0.1 == parse_statement_at(ts, pos)->Ok_0.1,
        statement_text(parse_statement_at(ts, pos)->Ok_0.0, indent) == line(
            indent,
            expression_text(parse_expression(ts, pos)->Ok_0.0),
        ),
{
    let segments = segments_at(ts, pos);
    let kind = classify(segments);
    lemma_optional_args_forward(ts, pos + 3);
    assert(token_at(ts, pos) is Identifier);
    assert(is_delimiter(token_at(ts, pos + 1), Delimiter::Dot));
    assert(token_at(ts, pos + 2) is Identifier);
    assert(parse_optional_args(ts, pos + 3) is Ok);
    let (args, end) = parse_optional_args(ts, pos + 3)->Ok_0;
    assert(parse_statement_at(ts, pos)->Ok_0.1 == end);
    let receiver = ExpressionView::Variable(segments[0]);
    assert(parse_primary(ts, pos) == Ok::<(ExpressionView, nat), ParseError>((receiver, pos + 1)));
    let call = member_call(receiver, segments[1], args);
    let pair = seq![segments[0], segments[1]];
    assert(pair[0] == segments[0] && pair[1] == segments[1]);
    assert(classify(pair) == kind);
    assert(parse_postfix(ts, end, call) == Ok::<(ExpressionView, nat), ParseError>((call, end)));
    assert(parse_postfix(ts, pos + 1, receiver) == parse_postfix(ts, end, call));
    assert(parse_expression(ts, pos) == Ok::<(ExpressionView, nat), ParseError>((call, end)));
    assert(expression_text(receiver) == segments[0]);
}

/// A dotted reference reads alike as a statement and as an expression. Where
/// a statement is a reference with its arguments, and neither a member access
/// nor a `+` follows it, the expression that starts at the same token ends at
/// the same place, and the statement's text is that expression's text on a
/// line of its own.
pub proof fn lemma_reference_reads_alike(ts: Seq<TokenView>, pos: nat, indent: Seq<u8>)
    requires
        pos <= ts.len(),
        classify(segments_at(ts, pos)) != ReferenceKind::Variable,
        parse_statement_at(ts, pos) is Ok,
        !is_delimiter(token_at(ts, parse_statement_at(ts, pos)->Ok_0.1), Delimiter::Dot),
        !is_operator(token_at(ts, parse_statement_at(ts, pos)->Ok_0.1), Operator::Plus),
    ensures
        parse_expression(ts, pos) is Ok,
        parse_expression(ts, pos)->Ok_0.1 == parse_statement_at(ts, pos)->Ok_0.1,
        statement_text(parse_statement_at(ts, pos)->Ok_0.0, indent) == line(
            indent,
            expression_text(parse_expression(ts, pos)->Ok_0.0),
        ),
{
    match classify(segments_at(ts, pos)) {
        ReferenceKind::NestedModuleCall => lemma_module_reference_reads_alike(ts, pos, indent),
        ReferenceKind::ModuleCall => lemma_module_reference_reads_alike(ts, pos, indent),
        _ => lemma_member_reference_reads_alike(ts, pos, indent),
    }
}

proof fn lemma_single_digit(ds: Seq<u8>)
    requires
        ds.len() == 1,
    ensures
        digits_value(ds) == (ds[0] - DIGIT_ZERO) as nat,
{
    assert(ds.drop_last().len() == 0);
    assert(digits_value(ds.drop_last()) == 0);
    assert(ds.last() == ds[0]);
}

/// The digits of a number denote at least what their first digit does.
proof fn lemma_leading_digit(ds: Seq<u8>)
    requires
        all_digits(ds),
        ds.len() > 0,
        ds[0] != DIGIT_ZERO,
    ensures
        digits_value(ds) >= 1,
{
    lemma_digits_value_prefix(ds, 1);
    lemma_single_digit(ds.take(1));
}

/// A number's digits, written without leading zeros, are the digits of what they denote.
pub proof fn lemma_digits_round_trip(ds: Seq<u8>)
    requires
        all_digits(ds),
        ds.len() > 0,
        ds.len() > 1 ==> ds[0] != DIGIT_ZERO,
    ensures
        decimal_digits(digits_value(ds)) == ds,
    decreases ds.len(),
{
    let init = ds.drop_last();
    let d = (ds.last() - DIGIT_ZERO) as nat;
    assert(ds.last() == ds[ds.len() - 1]);
    if ds.len() == 1 {
        lemma_single_digit(ds);
        assert(decimal_digits(d) =~= ds);
    } else {
        assert(init[0] == ds[0]);
        assert forall|i: int| 0 <= i < init.len() implies is_digit(#[trigger] init[i]) by {
            assert(init[i] == ds[i]);
        }
        lemma_leading_digit(init);
        lemma_digits_round_trip(init);
        let v = digits_value(init);
        assert(digits_value(ds) == v * 10 + d);
        assert((v * 10 + d) / 10 == v);
        assert((v * 10 + d) % 10 == d);
        assert(decimal_digits(v * 10 + d) == decimal_digits(v).push(
            (DIGIT_ZERO + d) as u8,
        ));
        assert(init.push(ds.last()) =~= ds);
    }
}

/// An integer literal renders as it was written: where the digits carry no
/// leading zero and fit the integer type, the text of the value they denote
/// is the digits themselves.
pub proof fn lemma_integer_round_trip(ds: Seq<u8>)
    requires
        all_digits(ds),
        ds.len() > 0,
        ds.len() > 1 ==> ds[0] != DIGIT_ZERO,
        digits_value(ds) <= i64::MAX,
    ensures
        expression_text(ExpressionView::Integer(integer_value(ds))) == ds,
{
    lemma_digits_round_trip(ds);
}

/// The digits of a number are digits, and there is at least one.
pub proof fn lemma_decimal_digits(n: nat)
    ensures
        decimal_digits(n).len() >= 1,
        all_digits(decimal_digits(n)),
    decreases n,
{
    if n >= 10 {
        lemma_decimal_digits(n / 10);
    }
}

/// The text of an integer holds no decimal point: it is a run of digits,
/// behind a `-` where the integer is negative.
pub proof fn lemma_integer_text_has_no_point(v: int)
    ensures
        !integer_text(v).contains(DOT),
{
    if v < 0 {
        lemma_decimal_digits((-v) as nat);
    } else {
        lemma_decimal_digits(v as nat);
    }
}

/// Where the decimal point stands in the text of a decimal number.
pub open spec fn point_position(d: Decimal) -> int {
    let digits = decimal_digits(d.mantissa as nat);
    if d.scale == 0 {
        digits.len() as int
    } else if digits.len() > d.scale {
        digits.len() - d.scale
    } else {
        1
    }
}

/// The text of a decimal number always shows a fractional part: it is digits,
/// one decimal point, and digits again, with at least one digit on either side.
pub proof fn lemma_decimal_text_has_fraction(d: Decimal)
    ensures
        0 < point_position(d) < decimal_text(d).len() - 1,
        decimal_text(d)[point_position(d)] == DOT,
        forall|i: int|
            0 <= i < decimal_text(d).len() && i != point_position(d) ==> is_digit(
                #[trigger] decimal_text(d)[i],
            ),
{
    lemma_decimal_digits(d.mantissa as nat);
}

/// A zero in front of a digit string does not change what it denotes.
proof fn lemma_leading_zero(ds: Seq<u8>)
    ensures
        digits_value(seq![DIGIT_ZERO] + ds) == digits_value(ds),
    decreases ds.len(),
{
    let whole = seq![DIGIT_ZERO] + ds;
    if ds.len() == 0 {
        lemma_single_digit(whole);
    } else {
        assert(whole.drop_last() =~= seq![DIGIT_ZERO] + ds.drop_last());
        assert(whole.last() == ds.last());
        lemma_leading_zero(ds.drop_last());
    }
}

/// How many zeros a digit string begins with.
pub open spec fn leading_zeros(ds: Seq<u8>) -> nat
    decreases ds.len(),
{
    if ds.len() > 0 && ds[0] == DIGIT_ZERO {
        1 + leading_zeros(ds.skip(1))
    } else {
        0
    }
}

/// A digit string is its leading zeros and the rest, and denotes what the rest does.
proof fn lemma_leading_zeros(ds: Seq<u8>)
    ensures
        leading_zeros(ds) <= ds.len(),
        ds == zeros(leading_zeros(ds)) + ds.skip(leading_zeros(ds) as int),
        digits_value(ds) == digits_value(ds.skip(leading_zeros(ds) as int)),
        leading_zeros(ds) < ds.len() ==> ds[leading_zeros(ds) as int] != DIGIT_ZERO,
    decreases ds.len(),
{
    if ds.len() > 0 && ds[0] == DIGIT_ZERO {
        let rest = ds.skip(1);
        lemma_leading_zeros(rest);
        let k = leading_zeros(rest);
        assert(rest.skip(k as int) =~= ds.skip(k as int + 1));
        assert(ds =~= seq![DIGIT_ZERO] + rest);
        lemma_leading_zero(rest);
        assert(zeros(k + 1) + ds.skip(k as int + 1) =~= seq![DIGIT_ZERO] + (zeros(k) + rest.skip(
            k as int,
        )));
    } else {
        assert(ds.skip(0) =~= ds);
        assert(zeros(0) + ds =~= ds);
    }
}

/// A literal with a decimal point renders as it was written: where the digits
/// before the point carry no leading zero, the digits behind it do not end in
/// a zero, and all of them fit the mantissa, the text of the value that the
/// literal denotes is the literal itself.
pub proof fn lemma_decimal_round_trip(whole: Seq<u8>, fraction: Seq<u8>)
    requires
        all_digits(whole),
        all_digits(fraction),
        whole.len() > 0,
        whole.len() > 1 ==> whole[0] != DIGIT_ZERO,
        0 < fraction.len() <= usize::MAX,
        fraction.last() != DIGIT_ZERO,
        digits_value(whole + fraction) <= u64::MAX,
    ensures
        decimal_text(decimal_value(whole, fraction)) == whole + seq![DOT] + fraction,
        expression_text(ExpressionView::Float(decimal_value(whole, fraction))) == whole + seq![DOT]
            + fraction,
{
    let ds = whole + fraction;
    assert(fraction.take(fraction.len() as int) =~= fraction);
    let d = decimal_value(whole, fraction);
    assert(d.mantissa == digits_value(ds));
    assert(d.scale == fraction.len());
    assert(all_digits(ds)) by {
        assert forall|i: int| 0 <= i < ds.len() implies is_digit(#[trigger] ds[i]) by {
            if i < whole.len() {
                assert(ds[i] == whole[i]);
            } else {
                assert(ds[i] == fraction[i - whole.len()]);
            }
        }
    }
    if whole[0] != DIGIT_ZERO {
        assert(ds[0] == whole[0]);
        lemma_digits_round_trip(ds);
        assert(ds.take(ds.len() - fraction.len()) =~= whole);
        assert(ds.skip(ds.len() - fraction.len()) =~= fraction);
    } else {
        assert(whole =~= seq![DIGIT_ZERO]);
        lemma_leading_zero(fraction);
        lemma_leading_zeros(fraction);
        let k = leading_zeros(fraction);
        let rest = fraction.skip(k as int);
        assert(fraction.last() == fraction[fraction.len() - 1]);
        assert(k < fraction.len()) by {
            if k >= fraction.len() {
                assert(fraction =~= zeros(k));
                assert(zeros(k)[fraction.len() - 1] == DIGIT_ZERO);
            }
        }
        assert(rest[0] == fraction[k as int]);
        assert forall|i: int| 0 <= i < rest.len() implies is_digit(#[trigger] rest[i]) by {
            assert(rest[i] == fraction[i + k]);
        }
        lemma_digits_round_trip(rest);
        assert(decimal_digits(d.mantissa as nat) == rest);
        assert(seq![DIGIT_ZERO, DOT] + zeros((fraction.len() - rest.len()) as nat) + rest =~= whole
            + seq![DOT] + fraction);
    }
}

/// A literal whose fraction is nothing but zeros renders with the fraction
/// `.0`: where the digits before the point carry no leading zero and fit the
/// mantissa, the text is those digits and `.0`.
pub proof fn lemma_whole_decimal_text(whole: Seq<u8>, fraction: Seq<u8>)
    requires
        all_digits(whole),
        whole.len() > 0,
        whole.len() > 1 ==> whole[0] != DIGIT_ZERO,
        fraction == zeros(fraction.len()),
        digits_value(whole) <= u64::MAX,
    ensures
        decimal_text(decimal_value(whole, fraction)) == whole + seq![DOT, DIGIT_ZERO],
{
    lemma_all_zeros_insignificant(fraction);
    assert(fraction.take(0) =~= Seq::<u8>::empty());
    assert(whole + Seq::<u8>::empty() =~= whole);
    lemma_digits_round_trip(whole);
}

proof fn lemma_all_zeros_insignificant(ds: Seq<u8>)
    requires
        ds == zeros(ds.len()),
    ensures
        significant_len(ds) == 0,
    decreases ds.len(),
{
    if ds.len() > 0 {
        assert(ds.last() == ds[ds.len() - 1]);
        assert(ds.drop_last() =~= zeros((ds.len() - 1) as nat));
        lemma_all_zeros_insignificant(ds.drop_last());
    }
}

} // verus!
