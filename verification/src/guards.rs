//! Guards recorded by a true branch: the property fetches and stable method
//! calls that the branch's condition checked, for later advice in diagnostics.
use vstd::prelude::*;
use std::collections::HashSet;
use crate::expr::{unwrap_expression, unwrapped, BinaryOperator, Expr, ExprKind, Literal, Span, UnaryPrefixOperator};
use crate::expr_id::{bytes_of, get_expression_id, get_stable_method_call_advisory_id, spec_advisory_id, this_view};
use crate::expr::{opt_view, spec_expression_id};

verus! {

/// How an expression was checked by an earlier condition.
#[derive(Clone, Copy, PartialEq, Eq, Structural, Debug)]
pub enum GuardedExpressionKind {
    MethodCall,
    PropertyFetch,
}

/// Where an expression was checked, and how.
#[derive(Clone, Copy, PartialEq, Eq, Structural, Debug)]
pub struct GuardedExpression {
    pub condition_span: Span,
    pub kind: GuardedExpressionKind,
}

/// The guards known in a block, by expression identifier. A later record
/// for the same identifier replaces an earlier one.
pub struct GuardedExpressions {
    entries: Vec<(Vec<u8>, GuardedExpression)>,
}

/// The map that a sequence of records builds, later records winning.
pub open spec fn guard_map(entries: Seq<(Vec<u8>, GuardedExpression)>) -> Map<Seq<u8>, GuardedExpression>
    decreases entries.len(),
{
    if entries.len() == 0 {
        Map::empty()
    } else {
        guard_map(entries.drop_last()).insert(entries.last().0@, entries.last().1)
    }
}

impl View for GuardedExpressions {
    type V = Map<Seq<u8>, GuardedExpression>;

    closed spec fn view(&self) -> Map<Seq<u8>, GuardedExpression> {
        guard_map(self.entries@)
    }
}

/// Whether two byte strings are equal.
pub fn bytes_eq(a: &[u8], b: &[u8]) -> (r: bool)
    ensures
        r == (a@ == b@),
{
    if a.len() != b.len() {
        return false;
    }
    let mut k: usize = 0;
    while k < a.len()
        invariant
            a.len() == b.len(),
            k <= a.len(),
            a@.subrange(0, k as int) == b@.subrange(0, k as int),
        decreases a.len() - k,
    {
        if a[k] != b[k] {
            return false;
        }
        k += 1;
        assert(a@.subrange(0, k as int) =~= b@.subrange(0, k as int));
    }
    assert(a@ =~= a@.subrange(0, k as int));
    assert(b@ =~= b@.subrange(0, k as int));
    true
}

impl GuardedExpressions {
    pub fn new() -> (guards: Self)
        ensures
            guards@ == Map::<Seq<u8>, GuardedExpression>::empty(),
    {
        GuardedExpressions { entries: Vec::new() }
    }

    pub fn is_empty(&self) -> (r: bool)
        ensures
            r == (self@ == Map::<Seq<u8>, GuardedExpression>::empty()),
    {
        if self.entries.len() == 0 {
            assert(guard_map(self.entries@) =~= Map::<Seq<u8>, GuardedExpression>::empty());
            true
        } else {
            assert(self@.dom().contains(self.entries@.last().0@));
            false
        }
    }

    /// Records a guard for an identifier, replacing any earlier one.
    pub fn insert(&mut self, id: Vec<u8>, guard: GuardedExpression)
        ensures
            final(self)@ == old(self)@.insert(id@, guard),
    {
        let ghost before = self.entries@;
        self.entries.push((id, guard));
        assert(self.entries@.drop_last() =~= before);
    }

    /// The guard recorded for an identifier.
    pub fn get(&self, id: &[u8]) -> (r: Option<GuardedExpression>)
        ensures
            match r {
                Some(g) => self@.dom().contains(id@) && self@[id@] == g,
                None => !self@.dom().contains(id@),
            },
    {
        let mut k: usize = self.entries.len();
        while k > 0
            invariant
                k <= self.entries@.len(),
                forall|j: int| k <= j < self.entries@.len() ==> #[trigger] self.entries@[j].0@ != id@,
            decreases k,
        {
            if bytes_eq(self.entries[k - 1].0.as_slice(), id) {
                proof {
                    lemma_guard_map_prefix(self.entries@, k as int, id@);
                    assert(self.entries@.subrange(0, k as int).drop_last() =~= self.entries@.subrange(0, k - 1));
                }
                return Some(self.entries[k - 1].1);
            }
            k -= 1;
        }
        proof {
            lemma_guard_map_prefix(self.entries@, 0, id@);
            assert(self.entries@.subrange(0, 0) =~= Seq::<(Vec<u8>, GuardedExpression)>::empty());
        }
        None
    }
}

/// Records after position `k` for other identifiers do not change what the map holds for `id`.
proof fn lemma_guard_map_prefix(entries: Seq<(Vec<u8>, GuardedExpression)>, k: int, id: Seq<u8>)
    requires
        0 <= k <= entries.len(),
        forall|j: int| k <= j < entries.len() ==> #[trigger] entries[j].0@ != id,
    ensures
        guard_map(entries).dom().contains(id) == guard_map(entries.subrange(0, k)).dom().contains(id),
        guard_map(entries).dom().contains(id) ==> guard_map(entries)[id] == guard_map(entries.subrange(0, k))[id],
    decreases entries.len(),
{
    if entries.len() == k {
        assert(entries.subrange(0, k) =~= entries);
    } else {
        assert(entries[entries.len() - 1].0@ != id);
        lemma_guard_map_prefix(entries.drop_last(), k, id);
        assert(entries.drop_last().subrange(0, k) =~= entries.subrange(0, k));
    }
}

/// What recording guards reads from the surrounding analysis: the class of
/// `$this`, and the offsets of method calls classified as stable.
pub struct GuardContext {
    pub this_class_name: Option<Vec<u8>>,
    pub stable_method_call_offsets: HashSet<u32>,
}

pub open spec fn context_this(ctx: GuardContext) -> Option<Seq<u8>> {
    opt_view(ctx.this_class_name)
}

/// The identifier under which an expression is guarded: a method call's
/// stable-call key, or a property fetch's identifier.
pub open spec fn spec_guard_id(e: Expr, ctx: GuardContext) -> Option<(Seq<u8>, GuardedExpressionKind)> {
    let u = unwrapped(e);
    if u.kind is MethodCall {
        match spec_advisory_id(u, context_this(ctx), ctx.stable_method_call_offsets@) {
            Some(id) => Some((id, GuardedExpressionKind::MethodCall)),
            None => None,
        }
    } else if u.kind is PropertyAccess {
        match spec_expression_id(u, context_this(ctx)) {
            Some(id) => Some((id, GuardedExpressionKind::PropertyFetch)),
            None => None,
        }
    } else {
        None
    }
}

pub open spec fn spec_record(e: Expr, ctx: GuardContext, m: Map<Seq<u8>, GuardedExpression>) -> Map<Seq<u8>, GuardedExpression> {
    match spec_guard_id(e, ctx) {
        Some((id, kind)) => m.insert(id, GuardedExpression { condition_span: e.span, kind }),
        None => m,
    }
}

pub open spec fn spec_record_all(values: Seq<Expr>, ctx: GuardContext, m: Map<Seq<u8>, GuardedExpression>) -> Map<Seq<u8>, GuardedExpression>
    decreases values.len(),
{
    if values.len() == 0 {
        m
    } else {
        spec_record_all(values.drop_first(), ctx, spec_record(values[0], ctx, m))
    }
}

/// `null` or `false`, possibly in parentheses.
pub open spec fn spec_is_nullish_literal(e: Expr) -> bool {
    match unwrapped(e).kind {
        ExprKind::Literal(Literal::Null) | ExprKind::Literal(Literal::False) => true,
        _ => false,
    }
}

/// A string, integer, float or `true` literal, possibly in parentheses.
pub open spec fn spec_is_definitely_non_null_literal(e: Expr) -> bool {
    match unwrapped(e).kind {
        ExprKind::Literal(Literal::String(_)) | ExprKind::Literal(Literal::Integer(_)) | ExprKind::Literal(Literal::Float)
        | ExprKind::Literal(Literal::True) => true,
        _ => false,
    }
}

/// The lower-case form of an ASCII byte.
pub open spec fn lower_byte(b: u8) -> u8 {
    if 65 <= b <= 90 { (b + 32) as u8 } else { b }
}

pub open spec fn ascii_lowercase(s: Seq<u8>) -> Seq<u8> {
    s.map_values(|b: u8| lower_byte(b))
}

/// `is_null`
pub open spec fn word_is_null() -> Seq<u8> {
    seq![105u8, 115, 95, 110, 117, 108, 108]
}

/// The type-checking functions whose truth proves something of their argument.
pub open spec fn spec_is_positive_type_guard(name: Seq<u8>) -> bool {
    name == seq![105u8, 115, 95, 97, 114, 114, 97, 121]
        || name == seq![105u8, 115, 95, 98, 111, 111, 108]
        || name == seq![105u8, 115, 95, 99, 97, 108, 108, 97, 98, 108, 101]
        || name == seq![105u8, 115, 95, 99, 111, 117, 110, 116, 97, 98, 108, 101]
        || name == seq![105u8, 115, 95, 102, 108, 111, 97, 116]
        || name == seq![105u8, 115, 95, 100, 111, 117, 98, 108, 101]
        || name == seq![105u8, 115, 95, 114, 101, 97, 108]
        || name == seq![105u8, 115, 95, 105, 110, 116]
        || name == seq![105u8, 115, 95, 105, 110, 116, 101, 103, 101, 114]
        || name == seq![105u8, 115, 95, 108, 111, 110, 103]
        || name == seq![105u8, 115, 95, 105, 116, 101, 114, 97, 98, 108, 101]
        || name == seq![105u8, 115, 95, 110, 117, 109, 101, 114, 105, 99]
        || name == seq![105u8, 115, 95, 111, 98, 106, 101, 99, 116]
        || name == seq![105u8, 115, 95, 114, 101, 115, 111, 117, 114, 99, 101]
        || name == seq![105u8, 115, 95, 115, 99, 97, 108, 97, 114]
        || name == seq![105u8, 115, 95, 115, 116, 114, 105, 110, 103]
        || name == seq![99u8, 116, 121, 112, 101, 95, 97, 108, 110, 117, 109]
        || name == seq![99u8, 116, 121, 112, 101, 95, 97, 108, 112, 104, 97]
        || name == seq![99u8, 116, 121, 112, 101, 95, 99, 110, 116, 114, 108]
        || name == seq![99u8, 116, 121, 112, 101, 95, 100, 105, 103, 105, 116]
        || name == seq![99u8, 116, 121, 112, 101, 95, 103, 114, 97, 112, 104]
        || name == seq![99u8, 116, 121, 112, 101, 95, 108, 111, 119, 101, 114]
        || name == seq![99u8, 116, 121, 112, 101, 95, 112, 114, 105, 110, 116]
        || name == seq![99u8, 116, 121, 112, 101, 95, 112, 117, 110, 99, 116]
        || name == seq![99u8, 116, 121, 112, 101, 95, 115, 112, 97, 99, 101]
        || name == seq![99u8, 116, 121, 112, 101, 95, 117, 112, 112, 101, 114]
        || name == seq![99u8, 116, 121, 112, 101, 95, 120, 100, 105, 103, 105, 116]
}

pub open spec fn spec_is_builtin_guard(name: Seq<u8>) -> bool {
    spec_is_positive_type_guard(name) || name == word_is_null()
}

/// The name a guard call is checked under: its own lower-cased name when it
/// is unqualified and names a built-in guard, else its resolved name, lower-cased.
pub open spec fn guard_call_name(value: Seq<u8>, resolved: Seq<u8>, local: bool) -> Seq<u8> {
    if local && spec_is_builtin_guard(ascii_lowercase(value)) {
        ascii_lowercase(value)
    } else {
        ascii_lowercase(resolved)
    }
}

pub open spec fn spec_function_call_guard(function: Expr, arguments: Seq<Expr>, truthy: bool, ctx: GuardContext, m: Map<Seq<u8>, GuardedExpression>) -> Map<Seq<u8>, GuardedExpression> {
    match function.kind {
        ExprKind::Identifier { value, resolved, local } => {
            let name = guard_call_name(value@, resolved@, local);
            let positive = truthy && spec_is_positive_type_guard(name);
            let negative_null = !truthy && name == word_is_null();
            if (positive || negative_null) && arguments.len() > 0 {
                spec_record(arguments[0], ctx, m)
            } else {
                m
            }
        },
        _ => m,
    }
}

/// The guards a condition records when its branch is known to be truthy (or
/// falsy): conjuncts of a true `&&`, disjuncts of a false `||`, comparisons
/// with literals, `instanceof`, type-checking calls, `isset`, `empty`, and
/// a truthy fetch or call itself.
pub open spec fn spec_collect_guards(e: Expr, truthy: bool, ctx: GuardContext, m: Map<Seq<u8>, GuardedExpression>) -> Map<Seq<u8>, GuardedExpression>
    decreases e,
{
    match e.kind {
        ExprKind::Parenthesized(inner) => spec_collect_guards(*inner, truthy, ctx, m),
        ExprKind::UnaryPrefix { operator: UnaryPrefixOperator::Not, operand } => spec_collect_guards(*operand, !truthy, ctx, m),
        ExprKind::Binary { operator, lhs, rhs } => {
            if (operator is And || operator is LowAnd) && truthy {
                spec_collect_guards(*rhs, true, ctx, spec_collect_guards(*lhs, true, ctx, m))
            } else if (operator is Or || operator is LowOr) && !truthy {
                spec_collect_guards(*rhs, false, ctx, spec_collect_guards(*lhs, false, ctx, m))
            } else if operator is Identical || operator is Equal {
                if !truthy {
                    m
                } else if spec_is_definitely_non_null_literal(*lhs) {
                    spec_record(*rhs, ctx, m)
                } else if spec_is_definitely_non_null_literal(*rhs) {
                    spec_record(*lhs, ctx, m)
                } else {
                    m
                }
            } else if operator is NotIdentical || operator is NotEqual {
                if !truthy {
                    m
                } else if spec_is_nullish_literal(*lhs) {
                    spec_record(*rhs, ctx, m)
                } else if spec_is_nullish_literal(*rhs) {
                    spec_record(*lhs, ctx, m)
                } else {
                    m
                }
            } else if operator is Instanceof && truthy {
                spec_record(*lhs, ctx, m)
            } else {
                m
            }
        },
        ExprKind::FunctionCall { function, arguments } => spec_function_call_guard(*function, arguments@, truthy, ctx, m),
        ExprKind::Isset(values) => if truthy { spec_record_all(values@, ctx, m) } else { m },
        ExprKind::Empty(value) => if !truthy { spec_record(*value, ctx, m) } else { spec_record(e, ctx, m) },
        _ => if truthy { spec_record(e, ctx, m) } else { m },
    }
}

/// Whether a lower-cased function name is a type-checking function whose truth
/// proves a type of its argument.
pub fn is_positive_type_guard(name: &[u8]) -> (r: bool)
    ensures
        r == spec_is_positive_type_guard(name@),
{
    bytes_eq(name, &[105u8, 115, 95, 97, 114, 114, 97, 121])
        || bytes_eq(name, &[105u8, 115, 95, 98, 111, 111, 108])
        || bytes_eq(name, &[105u8, 115, 95, 99, 97, 108, 108, 97, 98, 108, 101])
        || bytes_eq(name, &[105u8, 115, 95, 99, 111, 117, 110, 116, 97, 98, 108, 101])
        || bytes_eq(name, &[105u8, 115, 95, 102, 108, 111, 97, 116])
        || bytes_eq(name, &[105u8, 115, 95, 100, 111, 117, 98, 108, 101])
        || bytes_eq(name, &[105u8, 115, 95, 114, 101, 97, 108])
        || bytes_eq(name, &[105u8, 115, 95, 105, 110, 116])
        || bytes_eq(name, &[105u8, 115, 95, 105, 110, 116, 101, 103, 101, 114])
        || bytes_eq(name, &[105u8, 115, 95, 108, 111, 110, 103])
        || bytes_eq(name, &[105u8, 115, 95, 105, 116, 101, 114, 97, 98, 108, 101])
        || bytes_eq(name, &[105u8, 115, 95, 110, 117, 109, 101, 114, 105, 99])
        || bytes_eq(name, &[105u8, 115, 95, 111, 98, 106, 101, 99, 116])
        || bytes_eq(name, &[105u8, 115, 95, 114, 101, 115, 111, 117, 114, 99, 101])
        || bytes_eq(name, &[105u8, 115, 95, 115, 99, 97, 108, 97, 114])
        || bytes_eq(name, &[105u8, 115, 95, 115, 116, 114, 105, 110, 103])
        || bytes_eq(name, &[99u8, 116, 121, 112, 101, 95, 97, 108, 110, 117, 109])
        || bytes_eq(name, &[99u8, 116, 121, 112, 101, 95, 97, 108, 112, 104, 97])
        || bytes_eq(name, &[99u8, 116, 121, 112, 101, 95, 99, 110, 116, 114, 108])
        || bytes_eq(name, &[99u8, 116, 121, 112, 101, 95, 100, 105, 103, 105, 116])
        || bytes_eq(name, &[99u8, 116, 121, 112, 101, 95, 103, 114, 97, 112, 104])
        || bytes_eq(name, &[99u8, 116, 121, 112, 101, 95, 108, 111, 119, 101, 114])
        || bytes_eq(name, &[99u8, 116, 121, 112, 101, 95, 112, 114, 105, 110, 116])
        || bytes_eq(name, &[99u8, 116, 121, 112, 101, 95, 112, 117, 110, 99, 116])
        || bytes_eq(name, &[99u8, 116, 121, 112, 101, 95, 115, 112, 97, 99, 101])
        || bytes_eq(name, &[99u8, 116, 121, 112, 101, 95, 117, 112, 112, 101, 114])
        || bytes_eq(name, &[99u8, 116, 121, 112, 101, 95, 120, 100, 105, 103, 105, 116])
}

/// Whether a lower-cased function name is a built-in guard: a positive type
/// guard or `is_null`.
pub fn is_builtin_guard(name: &[u8]) -> (r: bool)
    ensures
        r == spec_is_builtin_guard(name@),
{
    is_positive_type_guard(name) || bytes_eq(name, &[105u8, 115, 95, 110, 117, 108, 108])
}

fn ascii_lowercase_word(s: &[u8]) -> (r: Vec<u8>)
    ensures
        r@ == ascii_lowercase(s@),
{
    let mut r: Vec<u8> = Vec::new();
    let mut k: usize = 0;
    while k < s.len()
        invariant
            k <= s.len(),
            r@ == ascii_lowercase(s@.subrange(0, k as int)),
        decreases s.len() - k,
    {
        let b = s[k];
        let l = if 65u8 <= b && b <= 90u8 { b + 32 } else { b };
        r.push(l);
        k += 1;
        assert(r@ =~= ascii_lowercase(s@.subrange(0, k as int)));
    }
    assert(s@.subrange(0, k as int) =~= s@);
    r
}

fn is_nullish_literal(expression: &Expr) -> (r: bool)
    ensures
        r == spec_is_nullish_literal(*expression),
{
    matches!(unwrap_expression(expression).kind, ExprKind::Literal(Literal::Null) | ExprKind::Literal(Literal::False))
}

fn is_definitely_non_null_literal(expression: &Expr) -> (r: bool)
    ensures
        r == spec_is_definitely_non_null_literal(*expression),
{
    matches!(
        unwrap_expression(expression).kind,
        ExprKind::Literal(Literal::String(_)) | ExprKind::Literal(Literal::Integer(_)) | ExprKind::Literal(Literal::Float)
            | ExprKind::Literal(Literal::True)
    )
}

fn get_guarded_expression_id(expression: &Expr, context: &GuardContext) -> (r: Option<(Vec<u8>, GuardedExpressionKind)>)
    ensures
        spec_guard_id(*expression, *context) == (match r {
            Some((id, kind)) => Some((id@, kind)),
            None => None,
        }),
{
    let this = match &context.this_class_name {
        Some(n) => Some(n.as_slice()),
        None => None,
    };
    assert(this_view(this) == context_this(*context));
    let expression = unwrap_expression(expression);
    if matches!(expression.kind, ExprKind::MethodCall { .. }) {
        return match get_stable_method_call_advisory_id(expression, this, &context.stable_method_call_offsets) {
            Some(id) => Some((id, GuardedExpressionKind::MethodCall)),
            None => None,
        };
    }
    if matches!(expression.kind, ExprKind::PropertyAccess { .. }) {
        return match get_expression_id(expression, this) {
            Some(id) => Some((id, GuardedExpressionKind::PropertyFetch)),
            None => None,
        };
    }
    None
}

fn record_guarded_expression(expression: &Expr, context: &GuardContext, guards: &mut GuardedExpressions)
    ensures
        final(guards)@ == spec_record(*expression, *context, old(guards)@),
{
    match get_guarded_expression_id(expression, context) {
        Some((id, kind)) => guards.insert(id, GuardedExpression { condition_span: expression.span, kind }),
        None => {},
    }
}

fn record_if_nullish_literal_comparison(left: &Expr, right: &Expr, context: &GuardContext, guards: &mut GuardedExpressions)
    ensures
        final(guards)@ == (if spec_is_nullish_literal(*left) {
            spec_record(*right, *context, old(guards)@)
        } else if spec_is_nullish_literal(*right) {
            spec_record(*left, *context, old(guards)@)
        } else {
            old(guards)@
        }),
{
    if is_nullish_literal(left) {
        record_guarded_expression(right, context, guards);
    } else if is_nullish_literal(right) {
        record_guarded_expression(left, context, guards);
    }
}

fn record_if_non_null_literal_comparison(left: &Expr, right: &Expr, context: &GuardContext, guards: &mut GuardedExpressions)
    ensures
        final(guards)@ == (if spec_is_definitely_non_null_literal(*left) {
            spec_record(*right, *context, old(guards)@)
        } else if spec_is_definitely_non_null_literal(*right) {
            spec_record(*left, *context, old(guards)@)
        } else {
            old(guards)@
        }),
{
    if is_definitely_non_null_literal(left) {
        record_guarded_expression(right, context, guards);
    } else if is_definitely_non_null_literal(right) {
        record_guarded_expression(left, context, guards);
    }
}

fn collect_function_call_guard(function: &Expr, arguments: &Vec<Expr>, branch_is_truthy: bool, context: &GuardContext, guards: &mut GuardedExpressions)
    ensures
        final(guards)@ == spec_function_call_guard(*function, arguments@, branch_is_truthy, *context, old(guards)@),
{
    let (value, resolved, local) = match &function.kind {
        ExprKind::Identifier { value, resolved, local } => (value, resolved, *local),
        _ => return,
    };
    let unresolved = ascii_lowercase_word(value.as_slice());
    let resolved_lower = ascii_lowercase_word(resolved.as_slice());
    let name = if local && is_builtin_guard(unresolved.as_slice()) { unresolved } else { resolved_lower };
    let positive_guard = branch_is_truthy && is_positive_type_guard(name.as_slice());
    let negative_null_guard = !branch_is_truthy && bytes_eq(name.as_slice(), &[105u8, 115, 95, 110, 117, 108, 108]);
    if !positive_guard && !negative_null_guard {
        return;
    }
    if arguments.len() > 0 {
        record_guarded_expression(&arguments[0], context, guards);
    }
}

fn collect_guards(expression: &Expr, branch_is_truthy: bool, context: &GuardContext, guards: &mut GuardedExpressions)
    ensures
        final(guards)@ == spec_collect_guards(*expression, branch_is_truthy, *context, old(guards)@),
    decreases expression,
{
    match &expression.kind {
        ExprKind::Parenthesized(inner) => collect_guards(inner, branch_is_truthy, context, guards),
        ExprKind::UnaryPrefix { operator: UnaryPrefixOperator::Not, operand } => {
            collect_guards(operand, !branch_is_truthy, context, guards)
        },
        ExprKind::Binary { operator, lhs, rhs } => {
            let is_and = matches!(operator, BinaryOperator::And | BinaryOperator::LowAnd);
            let is_or = matches!(operator, BinaryOperator::Or | BinaryOperator::LowOr);
            if is_and && branch_is_truthy {
                collect_guards(lhs, true, context, guards);
                collect_guards(rhs, true, context, guards);
            } else if is_or && !branch_is_truthy {
                collect_guards(lhs, false, context, guards);
                collect_guards(rhs, false, context, guards);
            } else if matches!(operator, BinaryOperator::Identical | BinaryOperator::Equal) {
                if branch_is_truthy {
                    record_if_non_null_literal_comparison(lhs, rhs, context, guards);
                }
            } else if matches!(operator, BinaryOperator::NotIdentical | BinaryOperator::NotEqual) {
                if branch_is_truthy {
                    record_if_nullish_literal_comparison(lhs, rhs, context, guards);
                }
            } else if matches!(operator, BinaryOperator::Instanceof) && branch_is_truthy {
                record_guarded_expression(lhs, context, guards);
            }
        },
        ExprKind::FunctionCall { function, arguments } => {
            collect_function_call_guard(function, arguments, branch_is_truthy, context, guards);
        },
        ExprKind::Isset(values) => {
            if branch_is_truthy {
                let mut k: usize = 0;
                assert(values@.subrange(0, values@.len() as int) =~= values@);
                while k < values.len()
                    invariant
                        k <= values@.len(),
                        spec_record_all(values@, *context, old(guards)@) == spec_record_all(
                            values@.subrange(k as int, values@.len() as int),
                            *context,
                            guards@,
                        ),
                    decreases values.len() - k,
                {
                    let ghost rest = values@.subrange(k as int, values@.len() as int);
                    assert(rest.drop_first() =~= values@.subrange(k + 1, values@.len() as int));
                    record_guarded_expression(&values[k], context, guards);
                    k += 1;
                }
            }
        },
        ExprKind::Empty(value) => {
            if !branch_is_truthy {
                record_guarded_expression(value, context, guards);
            } else {
                record_guarded_expression(expression, context, guards);
            }
        },
        _ => {
            if branch_is_truthy {
                record_guarded_expression(expression, context, guards);
            }
        },
    }
}

/// Records the property fetches and stable method calls that a true branch
/// has checked. The records only serve later diagnostics: they never name
/// locals or formula subjects.
pub fn record_true_branch_guards(condition: &Expr, context: &GuardContext, guards: &mut GuardedExpressions)
    ensures
        final(guards)@ == spec_collect_guards(*condition, true, *context, old(guards)@),
{
    collect_guards(condition, true, context, guards);
}

/// The advice to add to a diagnostic on an expression that an earlier
/// condition checked: where it was checked, its identifier, and whether it
/// is a call or a property fetch.
#[derive(Debug)]
pub struct GuardAdvice {
    pub condition_span: Span,
    pub expression_id: Vec<u8>,
    pub kind: GuardedExpressionKind,
}

/// Decides whether a diagnostic on `expression` gets the advice to evaluate
/// the expression once and keep it in a local: it does exactly when the
/// expression is guarded under its identifier in this block.
pub fn add_guarded_expression_advice(expression: &Expr, context: &GuardContext, guards: &GuardedExpressions) -> (advice: Option<GuardAdvice>)
    ensures
        match advice {
            Some(a) => spec_guard_id(*expression, *context) matches Some((id, _)) && guards@.dom().contains(id)
                && a.expression_id@ == id && a.condition_span == guards@[id].condition_span
                && a.kind == guards@[id].kind,
            None => !(spec_guard_id(*expression, *context) matches Some((id, _)) && guards@.dom().contains(id)),
        },
{
    if guards.is_empty() {
        proof {
            if let Some((id, _)) = spec_guard_id(*expression, *context) {
                assert(!guards@.dom().contains(id));
            }
        }
        return None;
    }
    let id = match get_guarded_expression_id(expression, context) {
        Some((id, _)) => id,
        None => return None,
    };
    match guards.get(id.as_slice()) {
        Some(guard) => Some(GuardAdvice { condition_span: guard.condition_span, expression_id: id, kind: guard.kind }),
        None => None,
    }
}

proof fn lemma_record_grows(e: Expr, ctx: GuardContext, m: Map<Seq<u8>, GuardedExpression>)
    ensures
        m.dom().subset_of(spec_record(e, ctx, m).dom()),
{
}

proof fn lemma_record_all_grows(values: Seq<Expr>, ctx: GuardContext, m: Map<Seq<u8>, GuardedExpression>)
    ensures
        m.dom().subset_of(spec_record_all(values, ctx, m).dom()),
    decreases values.len(),
{
    if values.len() > 0 {
        lemma_record_grows(values[0], ctx, m);
        lemma_record_all_grows(values.drop_first(), ctx, spec_record(values[0], ctx, m));
    }
}

/// Recording the guards of a condition never forgets a guard: every
/// expression guarded before stays guarded, under the same identifier.
pub proof fn lemma_guards_only_grow(e: Expr, truthy: bool, ctx: GuardContext, m: Map<Seq<u8>, GuardedExpression>)
    ensures
        m.dom().subset_of(spec_collect_guards(e, truthy, ctx, m).dom()),
    decreases e,
{
    match e.kind {
        ExprKind::Parenthesized(inner) => lemma_guards_only_grow(*inner, truthy, ctx, m),
        ExprKind::UnaryPrefix { operator: UnaryPrefixOperator::Not, operand } => lemma_guards_only_grow(*operand, !truthy, ctx, m),
        ExprKind::Binary { operator, lhs, rhs } => {
            if (operator is And || operator is LowAnd) && truthy {
                lemma_guards_only_grow(*lhs, true, ctx, m);
                lemma_guards_only_grow(*rhs, true, ctx, spec_collect_guards(*lhs, true, ctx, m));
            } else if (operator is Or || operator is LowOr) && !truthy {
                lemma_guards_only_grow(*lhs, false, ctx, m);
                lemma_guards_only_grow(*rhs, false, ctx, spec_collect_guards(*lhs, false, ctx, m));
            } else {
                lemma_record_grows(*lhs, ctx, m);
                lemma_record_grows(*rhs, ctx, m);
            }
        },
        ExprKind::FunctionCall { function, arguments } => {
            if arguments@.len() > 0 {
                lemma_record_grows(arguments@[0], ctx, m);
            }
        },
        ExprKind::Isset(values) => lemma_record_all_grows(values@, ctx, m),
        ExprKind::Empty(value) => {
            lemma_record_grows(*value, ctx, m);
            lemma_record_grows(e, ctx, m);
        },
        _ => lemma_record_grows(e, ctx, m),
    }
}

/// The bytes of an ASCII string.
pub open spec fn ascii_of(s: Seq<char>) -> Seq<u8> {
    s.map_values(|c: char| c as u8)
}

/// The PHP functions whose truth proves a type of their argument are type
/// guards: the `is_*` type checks and the `ctype_*` character-class checks.
pub proof fn lemma_type_checking_functions_are_guards()
    ensures
        spec_is_positive_type_guard(ascii_of("is_array"@)),
        spec_is_positive_type_guard(ascii_of("is_bool"@)),
        spec_is_positive_type_guard(ascii_of("is_callable"@)),
        spec_is_positive_type_guard(ascii_of("is_countable"@)),
        spec_is_positive_type_guard(ascii_of("is_float"@)),
        spec_is_positive_type_guard(ascii_of("is_double"@)),
        spec_is_positive_type_guard(ascii_of("is_real"@)),
        spec_is_positive_type_guard(ascii_of("is_int"@)),
        spec_is_positive_type_guard(ascii_of("is_integer"@)),
        spec_is_positive_type_guard(ascii_of("is_long"@)),
        spec_is_positive_type_guard(ascii_of("is_iterable"@)),
        spec_is_positive_type_guard(ascii_of("is_numeric"@)),
        spec_is_positive_type_guard(ascii_of("is_object"@)),
        spec_is_positive_type_guard(ascii_of("is_resource"@)),
        spec_is_positive_type_guard(ascii_of("is_scalar"@)),
        spec_is_positive_type_guard(ascii_of("is_string"@)),
        spec_is_positive_type_guard(ascii_of("ctype_alnum"@)),
        spec_is_positive_type_guard(ascii_of("ctype_alpha"@)),
        spec_is_positive_type_guard(ascii_of("ctype_cntrl"@)),
        spec_is_positive_type_guard(ascii_of("ctype_digit"@)),
        spec_is_positive_type_guard(ascii_of("ctype_graph"@)),
        spec_is_positive_type_guard(ascii_of("ctype_lower"@)),
        spec_is_positive_type_guard(ascii_of("ctype_print"@)),
        spec_is_positive_type_guard(ascii_of("ctype_punct"@)),
        spec_is_positive_type_guard(ascii_of("ctype_space"@)),
        spec_is_positive_type_guard(ascii_of("ctype_upper"@)),
        spec_is_positive_type_guard(ascii_of("ctype_xdigit"@)),
{
    reveal_strlit("is_array");
    assert(ascii_of("is_array"@) =~= seq![105u8, 115u8, 95u8, 97u8, 114u8, 114u8, 97u8, 121u8]);
    reveal_strlit("is_bool");
    assert(ascii_of("is_bool"@) =~= seq![105u8, 115u8, 95u8, 98u8, 111u8, 111u8, 108u8]);
    reveal_strlit("is_callable");
    assert(ascii_of("is_callable"@) =~= seq![105u8, 115u8, 95u8, 99u8, 97u8, 108u8, 108u8, 97u8, 98u8, 108u8, 101u8]);
    reveal_strlit("is_countable");
    assert(ascii_of("is_countable"@) =~= seq![105u8, 115u8, 95u8, 99u8, 111u8, 117u8, 110u8, 116u8, 97u8, 98u8, 108u8, 101u8]);
    reveal_strlit("is_float");
    assert(ascii_of("is_float"@) =~= seq![105u8, 115u8, 95u8, 102u8, 108u8, 111u8, 97u8, 116u8]);
    reveal_strlit("is_double");
    assert(ascii_of("is_double"@) =~= seq![105u8, 115u8, 95u8, 100u8, 111u8, 117u8, 98u8, 108u8, 101u8]);
    reveal_strlit("is_real");
    assert(ascii_of("is_real"@) =~= seq![105u8, 115u8, 95u8, 114u8, 101u8, 97u8, 108u8]);
    reveal_strlit("is_int");
    assert(ascii_of("is_int"@) =~= seq![105u8, 115u8, 95u8, 105u8, 110u8, 116u8]);
    reveal_strlit("is_integer");
    assert(ascii_of("is_integer"@) =~= seq![105u8, 115u8, 95u8, 105u8, 110u8, 116u8, 101u8, 103u8, 101u8, 114u8]);
    reveal_strlit("is_long");
    assert(ascii_of("is_long"@) =~= seq![105u8, 115u8, 95u8, 108u8, 111u8, 110u8, 103u8]);
    reveal_strlit("is_iterable");
    assert(ascii_of("is_iterable"@) =~= seq![105u8, 115u8, 95u8, 105u8, 116u8, 101u8, 114u8, 97u8, 98u8, 108u8, 101u8]);
    reveal_strlit("is_numeric");
    assert(ascii_of("is_numeric"@) =~= seq![105u8, 115u8, 95u8, 110u8, 117u8, 109u8, 101u8, 114u8, 105u8, 99u8]);
    reveal_strlit("is_object");
    assert(ascii_of("is_object"@) =~= seq![105u8, 115u8, 95u8, 111u8, 98u8, 106u8, 101u8, 99u8, 116u8]);
    reveal_strlit("is_resource");
    assert(ascii_of("is_resource"@) =~= seq![105u8, 115u8, 95u8, 114u8, 101u8, 115u8, 111u8, 117u8, 114u8, 99u8, 101u8]);
    reveal_strlit("is_scalar");
    assert(ascii_of("is_scalar"@) =~= seq![105u8, 115u8, 95u8, 115u8, 99u8, 97u8, 108u8, 97u8, 114u8]);
    reveal_strlit("is_string");
    assert(ascii_of("is_string"@) =~= seq![105u8, 115u8, 95u8, 115u8, 116u8, 114u8, 105u8, 110u8, 103u8]);
    reveal_strlit("ctype_alnum");
    assert(ascii_of("ctype_alnum"@) =~= seq![99u8, 116u8, 121u8, 112u8, 101u8, 95u8, 97u8, 108u8, 110u8, 117u8, 109u8]);
    reveal_strlit("ctype_alpha");
    assert(ascii_of("ctype_alpha"@) =~= seq![99u8, 116u8, 121u8, 112u8, 101u8, 95u8, 97u8, 108u8, 112u8, 104u8, 97u8]);
    reveal_strlit("ctype_cntrl");
    assert(ascii_of("ctype_cntrl"@) =~= seq![99u8, 116u8, 121u8, 112u8, 101u8, 95u8, 99u8, 110u8, 116u8, 114u8, 108u8]);
    reveal_strlit("ctype_digit");
    assert(ascii_of("ctype_digit"@) =~= seq![99u8, 116u8, 121u8, 112u8, 101u8, 95u8, 100u8, 105u8, 103u8, 105u8, 116u8]);
    reveal_strlit("ctype_graph");
    assert(ascii_of("ctype_graph"@) =~= seq![99u8, 116u8, 121u8, 112u8, 101u8, 95u8, 103u8, 114u8, 97u8, 112u8, 104u8]);
    reveal_strlit("ctype_lower");
    assert(ascii_of("ctype_lower"@) =~= seq![99u8, 116u8, 121u8, 112u8, 101u8, 95u8, 108u8, 111u8, 119u8, 101u8, 114u8]);
    reveal_strlit("ctype_print");
    assert(ascii_of("ctype_print"@) =~= seq![99u8, 116u8, 121u8, 112u8, 101u8, 95u8, 112u8, 114u8, 105u8, 110u8, 116u8]);
    reveal_strlit("ctype_punct");
    assert(ascii_of("ctype_punct"@) =~= seq![99u8, 116u8, 121u8, 112u8, 101u8, 95u8, 112u8, 117u8, 110u8, 99u8, 116u8]);
    reveal_strlit("ctype_space");
    assert(ascii_of("ctype_space"@) =~= seq![99u8, 116u8, 121u8, 112u8, 101u8, 95u8, 115u8, 112u8, 97u8, 99u8, 101u8]);
    reveal_strlit("ctype_upper");
    assert(ascii_of("ctype_upper"@) =~= seq![99u8, 116u8, 121u8, 112u8, 101u8, 95u8, 117u8, 112u8, 112u8, 101u8, 114u8]);
    reveal_strlit("ctype_xdigit");
    assert(ascii_of("ctype_xdigit"@) =~= seq![99u8, 116u8, 121u8, 112u8, 101u8, 95u8, 120u8, 100u8, 105u8, 103u8, 105u8, 116u8]);
}

/// In a branch where a call to a type-checking function is true (written
/// unqualified, in any case), the call's first argument is recorded as
/// guarded, whatever the function resolves to in the namespace.
pub proof fn lemma_type_check_records_its_argument(function: Expr, arguments: Seq<Expr>, call: Expr, ctx: GuardContext, m: Map<Seq<u8>, GuardedExpression>)
    requires
        function.kind matches ExprKind::Identifier { value, local, .. } && local && spec_is_positive_type_guard(ascii_lowercase(value@)),
        call.kind matches ExprKind::FunctionCall { function: f, arguments: a } && *f == function && a@ == arguments,
        arguments.len() > 0,
    ensures
        spec_collect_guards(call, true, ctx, m) == spec_record(arguments[0], ctx, m),
{
}

} // verus!
