//! The assignment map of a loop: for each variable that the loop's
//! conditions, body and increments assign, the variables its new value is
//! taken from.
use vstd::prelude::*;
use crate::expr::{unwrap_expression, unwrapped, ArrayElement, ConstantSelector, Expr, ExprKind, MemberSelector, UnaryPrefixOperator};
use crate::guards::bytes_eq;
use crate::expr_id::{bytes_of, get_root_expression_id, spec_root_id};

verus! {

/// A statement, as far as the assignment map reads it.
#[derive(Debug)]
pub enum Stmt {
    /// An expression statement.
    Expression(Expr),
    /// `unset(...)`.
    Unset(Vec<Expr>),
    /// Any other statement, with the expressions and statements it holds.
    Other { expressions: Vec<Expr>, statements: Vec<Stmt> },
}

/// An edge of the map: the variable assigned and the variable read.
pub type Edge = (Seq<u8>, Seq<u8>);

/// `isset`: the source of a value that comes from no variable.
pub open spec fn word_isset() -> Seq<u8> {
    seq![105u8, 115, 115, 101, 116]
}

/// An edge from the root variable `id`, when there is one, to `target`.
pub open spec fn edge_to(id: Option<Seq<u8>>, target: Seq<u8>) -> Seq<Edge> {
    match id {
        Some(v) => seq![(v, target)],
        None => Seq::empty(),
    }
}

/// An edge from the root variable `id`, when there is one, to itself.
pub open spec fn self_edge(id: Option<Seq<u8>>) -> Seq<Edge> {
    match id {
        Some(v) => seq![(v, v)],
        None => Seq::empty(),
    }
}

/// Each argument's root variable depends on itself: it may be passed by reference.
pub open spec fn self_edges(values: Seq<Expr>) -> Seq<Edge>
    decreases values.len(),
{
    if values.len() == 0 {
        Seq::empty()
    } else {
        self_edge(spec_root_id(values[0])) + self_edges(values.drop_first())
    }
}

/// In a destructuring assignment, each element's root variable depends on `target`.
pub open spec fn element_edges(elements: Seq<ArrayElement>, target: Seq<u8>) -> Seq<Edge>
    decreases elements.len(),
{
    if elements.len() == 0 {
        Seq::empty()
    } else {
        let head = match elements[0].value {
            Some(v) => edge_to(spec_root_id(*v), target),
            None => Seq::empty(),
        };
        head + element_edges(elements.drop_first(), target)
    }
}

/// The edges an assignment records: its target, or each variable a
/// destructuring target holds, depends on the root variable of the assigned
/// value, or on `isset` when the value has none. The assignment's own parts
/// are not walked.
pub open spec fn assignment_edges(lhs: Expr, rhs: Expr) -> Seq<Edge> {
    let target = match spec_root_id(rhs) {
        Some(r) => r,
        None => word_isset(),
    };
    match lhs.kind {
        ExprKind::Array(elements) => element_edges(elements@, target),
        _ => edge_to(spec_root_id(lhs), target),
    }
}

/// The edges found below an expression, in the order of the walk. Closures
/// and arrow functions are not entered; an increment or decrement makes its
/// variable depend on itself; a method call makes its object's variable
/// depend on `isset`, after what is below it.
pub open spec fn walk_expr(e: Expr) -> Seq<Edge>
    decreases e,
{
    match e.kind {
        ExprKind::Parenthesized(inner) => walk_expr(*inner),
        ExprKind::Assignment { lhs, rhs } => assignment_edges(*lhs, *rhs),
        ExprKind::UnaryPrefix { operator, operand } => if operator == UnaryPrefixOperator::PreIncrement
            || operator == UnaryPrefixOperator::PreDecrement {
            self_edge(spec_root_id(*operand))
        } else {
            walk_expr(*operand)
        },
        ExprKind::UnaryPostfix { operand, .. } => self_edge(spec_root_id(*operand)),
        ExprKind::Binary { lhs, rhs, .. } => walk_expr(*lhs) + walk_expr(*rhs),
        ExprKind::Conditional { condition, then, otherwise } => walk_expr(*condition) + (match then {
            Some(t) => walk_expr(*t),
            None => Seq::empty(),
        }) + walk_expr(*otherwise),
        ExprKind::PropertyAccess { object, property, .. } => walk_expr(*object) + walk_selector(property),
        ExprKind::StaticPropertyAccess { class, .. } => walk_expr(*class),
        ExprKind::ClassConstantAccess { class, constant } => walk_expr(*class) + walk_constant_selector(constant),
        ExprKind::ArrayAccess { array, index } => walk_expr(*array) + walk_expr(*index),
        ExprKind::MethodCall { object, method, arguments, null_safe } => walk_expr(*object) + walk_selector(method)
            + self_edges(arguments@) + walk_exprs(arguments@) + (if null_safe {
            Seq::empty()
        } else {
            edge_to(spec_root_id(*object), word_isset())
        }),
        ExprKind::StaticMethodCall { class, method, arguments } => walk_expr(*class) + walk_selector(method)
            + self_edges(arguments@) + walk_exprs(arguments@),
        ExprKind::FunctionCall { function, arguments } => walk_expr(*function) + self_edges(arguments@) + walk_exprs(arguments@),
        ExprKind::Instantiation { class, arguments } => walk_expr(*class) + self_edges(arguments@) + walk_exprs(arguments@),
        ExprKind::MethodPartialApplication { object, method } => walk_expr(*object) + walk_selector(method)
            + edge_to(spec_root_id(*object), word_isset()),
        ExprKind::Isset(values) => walk_exprs(values@),
        ExprKind::Empty(inner) => walk_expr(*inner),
        ExprKind::Throw(inner) => walk_expr(*inner),
        ExprKind::Clone(inner) => walk_expr(*inner),
        ExprKind::Yield(values) => walk_exprs(values@),
        ExprKind::Array(elements) => walk_elements(elements@),
        ExprKind::Other(values) => walk_exprs(values@),
        _ => Seq::empty(),
    }
}

pub open spec fn walk_exprs(values: Seq<Expr>) -> Seq<Edge>
    decreases values,
{
    if values.len() == 0 {
        Seq::empty()
    } else {
        walk_expr(values[0]) + walk_exprs(values.drop_first())
    }
}

pub open spec fn walk_elements(elements: Seq<ArrayElement>) -> Seq<Edge>
    decreases elements,
{
    if elements.len() == 0 {
        Seq::empty()
    } else {
        (match elements[0].key {
            Some(k) => walk_expr(*k),
            None => Seq::empty(),
        }) + (match elements[0].value {
            Some(v) => walk_expr(*v),
            None => Seq::empty(),
        }) + walk_elements(elements.drop_first())
    }
}

pub open spec fn walk_selector(s: MemberSelector) -> Seq<Edge>
    decreases s,
{
    match s {
        MemberSelector::Expression(e) => walk_expr(*e),
        _ => Seq::empty(),
    }
}

pub open spec fn walk_constant_selector(s: ConstantSelector) -> Seq<Edge>
    decreases s,
{
    match s {
        ConstantSelector::Expression(e) => walk_expr(*e),
        _ => Seq::empty(),
    }
}

/// The edges found below a statement: an `unset` makes each unset root
/// variable depend on itself.
pub open spec fn walk_stmt(s: Stmt) -> Seq<Edge>
    decreases s,
{
    match s {
        Stmt::Expression(e) => walk_expr(e),
        Stmt::Unset(values) => self_edges(values@) + walk_exprs(values@),
        Stmt::Other { expressions, statements } => walk_exprs(expressions@) + walk_stmts(statements@),
    }
}

pub open spec fn walk_stmts(statements: Seq<Stmt>) -> Seq<Edge>
    decreases statements,
{
    if statements.len() == 0 {
        Seq::empty()
    } else {
        walk_stmt(statements[0]) + walk_stmts(statements.drop_first())
    }
}

pub open spec fn edges_view(edges: Seq<(Vec<u8>, Vec<u8>)>) -> Seq<Edge> {
    edges.map_values(|p: (Vec<u8>, Vec<u8>)| (p.0@, p.1@))
}

proof fn lemma_edges_push(edges: Seq<(Vec<u8>, Vec<u8>)>, p: (Vec<u8>, Vec<u8>))
    ensures
        edges_view(edges.push(p)) == edges_view(edges) + seq![(p.0@, p.1@)],
{
    assert(edges_view(edges.push(p)) =~= edges_view(edges) + seq![(p.0@, p.1@)]);
}

fn isset_word() -> (r: Vec<u8>)
    ensures
        r@ == word_isset(),
{
    let mut r: Vec<u8> = Vec::new();
    r.push(105);
    r.push(115);
    r.push(115);
    r.push(101);
    r.push(116);
    assert(r@ =~= word_isset());
    r
}

fn record_edge_to(id: Option<Vec<u8>>, target: &[u8], edges: &mut Vec<(Vec<u8>, Vec<u8>)>)
    ensures
        edges_view(final(edges)@) == edges_view(old(edges)@) + edge_to(crate::expr::opt_view(id), target@),
{
    match id {
        Some(v) => {
            let ghost vv = v@;
            let p = (v, bytes_of(target));
            proof { lemma_edges_push(edges@, p); }
            edges.push(p);
            assert(edges_view(edges@) =~= edges_view(old(edges)@) + seq![(vv, target@)]);
        },
        None => {
            assert(edges_view(edges@) =~= edges_view(old(edges)@) + Seq::<Edge>::empty());
        },
    }
}

fn record_self_edge(id: Option<Vec<u8>>, edges: &mut Vec<(Vec<u8>, Vec<u8>)>)
    ensures
        edges_view(final(edges)@) == edges_view(old(edges)@) + self_edge(crate::expr::opt_view(id)),
{
    match id {
        Some(v) => {
            let w = bytes_of(v.as_slice());
            record_edge_to(Some(w), v.as_slice(), edges);
        },
        None => {
            assert(edges_view(edges@) =~= edges_view(old(edges)@) + Seq::<Edge>::empty());
        },
    }
}

fn record_self_edges(values: &Vec<Expr>, edges: &mut Vec<(Vec<u8>, Vec<u8>)>)
    ensures
        edges_view(final(edges)@) == edges_view(old(edges)@) + self_edges(values@),
{
    let mut k: usize = 0;
    assert(values@.skip(0) =~= values@);
    while k < values.len()
        invariant
            k <= values@.len(),
            edges_view(edges@) + self_edges(values@.skip(k as int)) == edges_view(old(edges)@) + self_edges(values@),
        decreases values.len() - k,
    {
        let ghost before = edges@;
        record_self_edge(get_root_expression_id(&values[k]), edges);
        proof {
            let rest = values@.skip(k as int);
            assert(rest.drop_first() =~= values@.skip(k + 1));
            assert(rest[0] == values@[k as int]);
            assert(edges_view(edges@) + self_edges(values@.skip(k + 1)) =~= edges_view(before) + self_edges(rest));
        }
        k += 1;
    }
    proof {
        assert(values@.skip(k as int) =~= Seq::<Expr>::empty());
        assert(edges_view(edges@) + Seq::<Edge>::empty() =~= edges_view(edges@));
    }
}

fn record_element_edges(elements: &Vec<ArrayElement>, target: &[u8], edges: &mut Vec<(Vec<u8>, Vec<u8>)>)
    ensures
        edges_view(final(edges)@) == edges_view(old(edges)@) + element_edges(elements@, target@),
{
    let mut k: usize = 0;
    assert(elements@.skip(0) =~= elements@);
    while k < elements.len()
        invariant
            k <= elements@.len(),
            edges_view(edges@) + element_edges(elements@.skip(k as int), target@) == edges_view(old(edges)@)
                + element_edges(elements@, target@),
        decreases elements.len() - k,
    {
        let ghost before = edges@;
        match &elements[k].value {
            Some(v) => record_edge_to(get_root_expression_id(v), target, edges),
            None => {
                assert(edges_view(edges@) =~= edges_view(before) + Seq::<Edge>::empty());
            },
        }
        proof {
            let rest = elements@.skip(k as int);
            assert(rest.drop_first() =~= elements@.skip(k + 1));
            assert(rest[0] == elements@[k as int]);
            assert(edges_view(edges@) + element_edges(elements@.skip(k + 1), target@) =~= edges_view(before)
                + element_edges(rest, target@));
        }
        k += 1;
    }
    proof {
        assert(elements@.skip(k as int) =~= Seq::<ArrayElement>::empty());
        assert(edges_view(edges@) + Seq::<Edge>::empty() =~= edges_view(edges@));
    }
}

fn record_assignment(lhs: &Expr, rhs: &Expr, edges: &mut Vec<(Vec<u8>, Vec<u8>)>)
    ensures
        edges_view(final(edges)@) == edges_view(old(edges)@) + assignment_edges(*lhs, *rhs),
{
    let target = match get_root_expression_id(rhs) {
        Some(r) => r,
        None => isset_word(),
    };
    match &lhs.kind {
        ExprKind::Array(elements) => record_element_edges(elements, target.as_slice(), edges),
        _ => record_edge_to(get_root_expression_id(lhs), target.as_slice(), edges),
    }
}

fn walk_expressions(values: &Vec<Expr>, edges: &mut Vec<(Vec<u8>, Vec<u8>)>)
    ensures
        edges_view(final(edges)@) == edges_view(old(edges)@) + walk_exprs(values@),
    decreases values@, 0nat,
{
    let mut k: usize = 0;
    assert(values@.skip(0) =~= values@);
    while k < values.len()
        invariant
            k <= values@.len(),
            edges_view(edges@) + walk_exprs(values@.skip(k as int)) == edges_view(old(edges)@) + walk_exprs(values@),
        decreases values.len() - k,
    {
        let ghost before = edges@;
        proof {
            assert(decreases_to!(values@ => values@[k as int]));
        }
        walk_expression(&values[k], edges);
        proof {
            let rest = values@.skip(k as int);
            assert(rest.drop_first() =~= values@.skip(k + 1));
            assert(rest[0] == values@[k as int]);
            assert(edges_view(edges@) + walk_exprs(values@.skip(k + 1)) =~= edges_view(before) + walk_exprs(rest));
        }
        k += 1;
    }
    proof {
        assert(values@.skip(k as int) =~= Seq::<Expr>::empty());
        assert(edges_view(edges@) + Seq::<Edge>::empty() =~= edges_view(edges@));
    }
}

fn walk_array_elements(elements: &Vec<ArrayElement>, edges: &mut Vec<(Vec<u8>, Vec<u8>)>)
    ensures
        edges_view(final(edges)@) == edges_view(old(edges)@) + walk_elements(elements@),
    decreases elements@, 0nat,
{
    let mut k: usize = 0;
    assert(elements@.skip(0) =~= elements@);
    while k < elements.len()
        invariant
            k <= elements@.len(),
            edges_view(edges@) + walk_elements(elements@.skip(k as int)) == edges_view(old(edges)@) + walk_elements(elements@),
        decreases elements.len() - k,
    {
        let ghost before = edges@;
        let element = &elements[k];
        proof {
            assert(decreases_to!(elements@ => elements@[k as int]));
        }
        match &element.key {
            Some(key) => walk_expression(key, edges),
            None => {},
        }
        let ghost middle = edges@;
        match &element.value {
            Some(value) => walk_expression(value, edges),
            None => {},
        }
        proof {
            let rest = elements@.skip(k as int);
            assert(rest.drop_first() =~= elements@.skip(k + 1));
            assert(rest[0] == elements@[k as int]);
            assert(edges_view(edges@) + walk_elements(elements@.skip(k + 1)) =~= edges_view(before) + walk_elements(rest));
        }
        k += 1;
    }
    proof {
        assert(elements@.skip(k as int) =~= Seq::<ArrayElement>::empty());
        assert(edges_view(edges@) + Seq::<Edge>::empty() =~= edges_view(edges@));
    }
}

fn walk_member_selector(selector: &MemberSelector, edges: &mut Vec<(Vec<u8>, Vec<u8>)>)
    ensures
        edges_view(final(edges)@) == edges_view(old(edges)@) + walk_selector(*selector),
    decreases selector, 0nat,
{
    match selector {
        MemberSelector::Expression(e) => walk_expression(e, edges),
        _ => {
            assert(edges_view(edges@) =~= edges_view(old(edges)@) + Seq::<Edge>::empty());
        },
    }
}

fn walk_constant_selector_of(selector: &ConstantSelector, edges: &mut Vec<(Vec<u8>, Vec<u8>)>)
    ensures
        edges_view(final(edges)@) == edges_view(old(edges)@) + walk_constant_selector(*selector),
    decreases selector, 0nat,
{
    match selector {
        ConstantSelector::Expression(e) => walk_expression(e, edges),
        _ => {
            assert(edges_view(edges@) =~= edges_view(old(edges)@) + Seq::<Edge>::empty());
        },
    }
}

/// Walks an expression, recording the edges found below it.
fn walk_expression(e: &Expr, edges: &mut Vec<(Vec<u8>, Vec<u8>)>)
    ensures
        edges_view(final(edges)@) == edges_view(old(edges)@) + walk_expr(*e),
    decreases e, 1nat,
{
    let ghost start = edges_view(edges@);
    match &e.kind {
        ExprKind::Parenthesized(inner) => walk_expression(inner, edges),
        ExprKind::Assignment { lhs, rhs } => record_assignment(lhs, rhs, edges),
        ExprKind::UnaryPrefix { operator, operand } => {
            if *operator == UnaryPrefixOperator::PreIncrement || *operator == UnaryPrefixOperator::PreDecrement {
                record_self_edge(get_root_expression_id(operand), edges);
            } else {
                walk_expression(operand, edges);
            }
        },
        ExprKind::UnaryPostfix { operand, .. } => record_self_edge(get_root_expression_id(operand), edges),
        ExprKind::Binary { lhs, rhs, .. } => {
            walk_expression(lhs, edges);
            walk_expression(rhs, edges);
            assert(edges_view(edges@) =~= start + walk_expr(*e));
        },
        ExprKind::Conditional { condition, then, otherwise } => {
            walk_expression(condition, edges);
            match then {
                Some(t) => walk_expression(t, edges),
                None => {},
            }
            walk_expression(otherwise, edges);
            assert(edges_view(edges@) =~= start + walk_expr(*e));
        },
        ExprKind::PropertyAccess { object, property, .. } => {
            walk_expression(object, edges);
            walk_member_selector(property, edges);
            assert(edges_view(edges@) =~= start + walk_expr(*e));
        },
        ExprKind::StaticPropertyAccess { class, .. } => walk_expression(class, edges),
        ExprKind::ClassConstantAccess { class, constant } => {
            walk_expression(class, edges);
            walk_constant_selector_of(constant, edges);
            assert(edges_view(edges@) =~= start + walk_expr(*e));
        },
        ExprKind::ArrayAccess { array, index } => {
            walk_expression(array, edges);
            walk_expression(index, edges);
            assert(edges_view(edges@) =~= start + walk_expr(*e));
        },
        ExprKind::MethodCall { object, method, arguments, null_safe } => {
            walk_expression(object, edges);
            walk_member_selector(method, edges);
            record_self_edges(arguments, edges);
            walk_expressions(arguments, edges);
            if !*null_safe {
                let isset = isset_word();
                record_edge_to(get_root_expression_id(object), isset.as_slice(), edges);
            }
            assert(edges_view(edges@) =~= start + walk_expr(*e));
        },
        ExprKind::StaticMethodCall { class, method, arguments } => {
            walk_expression(class, edges);
            walk_member_selector(method, edges);
            record_self_edges(arguments, edges);
            walk_expressions(arguments, edges);
            assert(edges_view(edges@) =~= start + walk_expr(*e));
        },
        ExprKind::FunctionCall { function, arguments } => {
            walk_expression(function, edges);
            record_self_edges(arguments, edges);
            walk_expressions(arguments, edges);
            assert(edges_view(edges@) =~= start + walk_expr(*e));
        },
        ExprKind::Instantiation { class, arguments } => {
            walk_expression(class, edges);
            record_self_edges(arguments, edges);
            walk_expressions(arguments, edges);
            assert(edges_view(edges@) =~= start + walk_expr(*e));
        },
        ExprKind::MethodPartialApplication { object, method } => {
            walk_expression(object, edges);
            walk_member_selector(method, edges);
            let isset = isset_word();
            record_edge_to(get_root_expression_id(object), isset.as_slice(), edges);
            assert(edges_view(edges@) =~= start + walk_expr(*e));
        },
        ExprKind::Isset(values) => walk_expressions(values, edges),
        ExprKind::Empty(inner) => walk_expression(inner, edges),
        ExprKind::Throw(inner) => walk_expression(inner, edges),
        ExprKind::Clone(inner) => walk_expression(inner, edges),
        ExprKind::Yield(values) => walk_expressions(values, edges),
        ExprKind::Array(elements) => walk_array_elements(elements, edges),
        ExprKind::Other(values) => walk_expressions(values, edges),
        _ => {
            assert(edges_view(edges@) =~= start + Seq::<Edge>::empty());
        },
    }
}

fn walk_statements(statements: &Vec<Stmt>, edges: &mut Vec<(Vec<u8>, Vec<u8>)>)
    ensures
        edges_view(final(edges)@) == edges_view(old(edges)@) + walk_stmts(statements@),
    decreases statements@, 0nat,
{
    let mut k: usize = 0;
    assert(statements@.skip(0) =~= statements@);
    while k < statements.len()
        invariant
            k <= statements@.len(),
            edges_view(edges@) + walk_stmts(statements@.skip(k as int)) == edges_view(old(edges)@) + walk_stmts(statements@),
        decreases statements.len() - k,
    {
        let ghost before = edges@;
        proof {
            assert(decreases_to!(statements@ => statements@[k as int]));
        }
        walk_statement(&statements[k], edges);
        proof {
            let rest = statements@.skip(k as int);
            assert(rest.drop_first() =~= statements@.skip(k + 1));
            assert(rest[0] == statements@[k as int]);
            assert(edges_view(edges@) + walk_stmts(statements@.skip(k + 1)) =~= edges_view(before) + walk_stmts(rest));
        }
        k += 1;
    }
    proof {
        assert(statements@.skip(k as int) =~= Seq::<Stmt>::empty());
        assert(edges_view(edges@) + Seq::<Edge>::empty() =~= edges_view(edges@));
    }
}

fn walk_statement(s: &Stmt, edges: &mut Vec<(Vec<u8>, Vec<u8>)>)
    ensures
        edges_view(final(edges)@) == edges_view(old(edges)@) + walk_stmt(*s),
    decreases s, 1nat,
{
    let ghost start = edges_view(edges@);
    match s {
        Stmt::Expression(e) => walk_expression(e, edges),
        Stmt::Unset(values) => {
            record_self_edges(values, edges);
            walk_expressions(values, edges);
            assert(edges_view(edges@) =~= start + walk_stmt(*s));
        },
        Stmt::Other { expressions, statements } => {
            walk_expressions(expressions, edges);
            walk_statements(statements, edges);
            assert(edges_view(edges@) =~= start + walk_stmt(*s));
        },
    }
}

/// The assignment map of a loop, as its edges in the order they are found:
/// the loop's conditions, then its body, then its increment expressions.
/// The map holds, for each variable, the set of variables it has an edge to.
pub fn get_assignment_map(pre_conditions: &Vec<Expr>, statements: &Vec<Stmt>, post_expressions: &Vec<Expr>) -> (edges: Vec<(Vec<u8>, Vec<u8>)>)
    ensures
        edges_view(edges@) == walk_exprs(pre_conditions@) + walk_stmts(statements@) + walk_exprs(post_expressions@),
{
    let mut edges: Vec<(Vec<u8>, Vec<u8>)> = Vec::new();
    assert(edges_view(edges@) =~= Seq::<Edge>::empty());
    walk_expressions(pre_conditions, &mut edges);
    walk_statements(statements, &mut edges);
    walk_expressions(post_expressions, &mut edges);
    assert(edges_view(edges@) =~= walk_exprs(pre_conditions@) + walk_stmts(statements@) + walk_exprs(post_expressions@));
    edges
}

pub open spec fn names_view(names: Vec<Vec<u8>>) -> Seq<Seq<u8>> {
    names@.map_values(|n: Vec<u8>| n@)
}

/// The variable a loop pre-condition assigns from its own previous value:
/// the condition is an assignment (inside any parentheses) whose left side
/// has a root variable among the variables `rhs_variables` that its right
/// side refers to.
pub open spec fn self_referenced(pre_condition: Expr, rhs_variables: Seq<Seq<u8>>) -> Option<Seq<u8>> {
    match unwrapped(pre_condition).kind {
        ExprKind::Assignment { lhs, .. } => match spec_root_id(*lhs) {
            Some(v) => if rhs_variables.contains(v) { Some(v) } else { None },
            None => None,
        },
        _ => None,
    }
}

/// The self-referential variables of the pre-conditions, in order.
pub open spec fn self_referential(pre_conditions: Seq<Expr>, rhs_variables: Seq<Seq<Seq<u8>>>) -> Seq<Seq<u8>>
    decreases pre_conditions.len(),
{
    if pre_conditions.len() == 0 {
        Seq::empty()
    } else {
        let n = (pre_conditions.len() - 1) as int;
        let before = self_referential(pre_conditions.drop_last(), rhs_variables);
        match self_referenced(pre_conditions[n], rhs_variables[n]) {
            Some(v) => before.push(v),
            None => before,
        }
    }
}

fn contains_name(names: &Vec<Vec<u8>>, name: &[u8]) -> (r: bool)
    ensures
        r == names_view(*names).contains(name@),
{
    let mut k: usize = 0;
    while k < names.len()
        invariant
            k <= names.len(),
            forall|j: int| 0 <= j < k ==> names_view(*names)[j] != name@,
        decreases names.len() - k,
    {
        if bytes_eq(names[k].as_slice(), name) {
            assert(names_view(*names)[k as int] == name@);
            return true;
        }
        k += 1;
    }
    false
}

/// Finds the variables that a loop's pre-conditions assign from their own
/// previous value, given for each pre-condition the variables the right
/// side of its assignment refers to (`rhs_variables`, one entry per
/// pre-condition).
pub fn get_self_referential_pre_condition_variables(pre_conditions: &Vec<Expr>, rhs_variables: &Vec<Vec<Vec<u8>>>) -> (vars: Vec<Vec<u8>>)
    requires
        rhs_variables@.len() == pre_conditions@.len(),
    ensures
        names_view(vars) == self_referential(pre_conditions@, rhs_variables@.map_values(|n: Vec<Vec<u8>>| names_view(n))),
{
    let ghost refs = rhs_variables@.map_values(|n: Vec<Vec<u8>>| names_view(n));
    let mut vars: Vec<Vec<u8>> = Vec::new();
    let mut i: usize = 0;
    assert(names_view(vars) =~= Seq::<Seq<u8>>::empty());
    while i < pre_conditions.len()
        invariant
            i <= pre_conditions.len(),
            rhs_variables@.len() == pre_conditions@.len(),
            refs == rhs_variables@.map_values(|n: Vec<Vec<u8>>| names_view(n)),
            names_view(vars) == self_referential(pre_conditions@.take(i as int), refs),
        decreases pre_conditions.len() - i,
    {
        let ghost before = names_view(vars);
        proof {
            let t = pre_conditions@.take((i + 1) as int);
            assert(t.drop_last() =~= pre_conditions@.take(i as int));
            assert(t[i as int] == pre_conditions@[i as int]);
            assert(refs[i as int] == names_view(rhs_variables@[i as int]));
        }
        let pre = unwrap_expression(&pre_conditions[i]);
        match &pre.kind {
            ExprKind::Assignment { lhs, .. } => {
                match get_root_expression_id(lhs) {
                    Some(v) => {
                        if contains_name(&rhs_variables[i], v.as_slice()) {
                            vars.push(v);
                            assert(names_view(vars) =~= before.push(v@));
                        }
                    },
                    None => {},
                }
            },
            _ => {},
        }
        i += 1;
    }
    proof {
        assert(pre_conditions@.take(pre_conditions.len() as int) =~= pre_conditions@);
    }
    vars
}

} // verus!
