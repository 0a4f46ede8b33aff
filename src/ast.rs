use vstd::prelude::*;

verus! {

/// The binary operators of the language.
#[derive(Debug, Clone, Copy, PartialEq, Eq, Structural)]
pub enum BinOp {
    Addition,
    Subtraction,
    Multiplication,
    Division,
    IntegerDivision,
    Modulo,
    Power,
    Equal,
    NotEqual,
    GreaterThan,
    GreaterOrEqual,
    LessThan,
    LessOrEqual,
}

/// A syntax tree seen mathematically.
pub enum Ast {
    Integer(int),
    /// A float literal, kept as its text
    Float(Seq<char>),
    Str(Seq<char>),
    Boolean(bool),
    Binary(BinOp, Box<Ast>, Box<Ast>),
    UnaryPlus(Box<Ast>),
    UnaryMinus(Box<Ast>),
    Vector(Seq<Ast>),
    Declaration { is_mutable: bool, var_type: Seq<char>, identifier: Seq<char>, initializer: Box<Ast> },
    Assignment { identifier: Seq<char>, value: Box<Ast> },
    While { condition: Seq<Ast>, block: Seq<Ast> },
    ForEach { item_type: Seq<char>, item_name: Seq<char>, collection: Seq<char>, block: Seq<Ast> },
    Program(Seq<Ast>),
}

/// A node of the syntax tree. Every node owns its children.
#[derive(Debug)]
#[allow(inconsistent_fields)]
pub enum Node {
    // Literals
    Integer { value: i64 },
    /// A float literal, kept as the text it was written with
    Float { value: String },
    String { value: String },
    Boolean { value: bool },
    // Binary operators
    Addition { left: Box<Node>, right: Box<Node> },
    Subtraction { left: Box<Node>, right: Box<Node> },
    Multiplication { left: Box<Node>, right: Box<Node> },
    Division { left: Box<Node>, right: Box<Node> },
    IntegerDivision { left: Box<Node>, right: Box<Node> },
    Modulo { left: Box<Node>, right: Box<Node> },
    Power { left: Box<Node>, right: Box<Node> },
    // Comparison operators
    Equal { left: Box<Node>, right: Box<Node> },
    NotEqual { left: Box<Node>, right: Box<Node> },
    GreaterThan { left: Box<Node>, right: Box<Node> },
    GreaterOrEqual { left: Box<Node>, right: Box<Node> },
    LessThan { left: Box<Node>, right: Box<Node> },
    LessOrEqual { left: Box<Node>, right: Box<Node> },
    Vector { items: Vec<Box<Node>> },
    // Unary operators
    UnaryPlus { expr: Box<Node> },
    UnaryMinus { expr: Box<Node> },
    // Loops
    While { condition: Vec<Box<Node>>, block: Vec<Box<Node>> },
    ForEach { item_type: Box<String>, item_name: Box<String>, collection: Box<String>, block: Vec<Box<Node>> },
    // Variables
    Declaration { is_mutable: bool, var_type: String, identifier: String, initializer: Box<Node> },
    Assignment { identifier: String, value: Box<Node> },
    Program { expressions: Vec<Box<Node>> },
}

/// The models of a sequence of nodes.
pub open spec fn asts_of(s: Seq<Box<Node>>) -> Seq<Ast>
    decreases s,
{
    Seq::new(s.len(), |i: int| if 0 <= i < s.len() { ast_of(&*s[i]) } else { Ast::Integer(0) })
}

/// The model of a node.
pub open spec fn ast_of(n: &Node) -> Ast
    decreases n,
{
    match n {
        Node::Integer { value } => Ast::Integer(*value as int),
        Node::Float { value } => Ast::Float(value@),
        Node::String { value } => Ast::Str(value@),
        Node::Boolean { value } => Ast::Boolean(*value),
        Node::Addition { left, right } => Ast::Binary(BinOp::Addition, Box::new(ast_of(left)), Box::new(ast_of(right))),
        Node::Subtraction { left, right } => Ast::Binary(BinOp::Subtraction, Box::new(ast_of(left)), Box::new(ast_of(right))),
        Node::Multiplication { left, right } => Ast::Binary(BinOp::Multiplication, Box::new(ast_of(left)), Box::new(ast_of(right))),
        Node::Division { left, right } => Ast::Binary(BinOp::Division, Box::new(ast_of(left)), Box::new(ast_of(right))),
        Node::IntegerDivision { left, right } => Ast::Binary(BinOp::IntegerDivision, Box::new(ast_of(left)), Box::new(ast_of(right))),
        Node::Modulo { left, right } => Ast::Binary(BinOp::Modulo, Box::new(ast_of(left)), Box::new(ast_of(right))),
        Node::Power { left, right } => Ast::Binary(BinOp::Power, Box::new(ast_of(left)), Box::new(ast_of(right))),
        Node::Equal { left, right } => Ast::Binary(BinOp::Equal, Box::new(ast_of(left)), Box::new(ast_of(right))),
        Node::NotEqual { left, right } => Ast::Binary(BinOp::NotEqual, Box::new(ast_of(left)), Box::new(ast_of(right))),
        Node::GreaterThan { left, right } => Ast::Binary(BinOp::GreaterThan, Box::new(ast_of(left)), Box::new(ast_of(right))),
        Node::GreaterOrEqual { left, right } => Ast::Binary(BinOp::GreaterOrEqual, Box::new(ast_of(left)), Box::new(ast_of(right))),
        Node::LessThan { left, right } => Ast::Binary(BinOp::LessThan, Box::new(ast_of(left)), Box::new(ast_of(right))),
        Node::LessOrEqual { left, right } => Ast::Binary(BinOp::LessOrEqual, Box::new(ast_of(left)), Box::new(ast_of(right))),
        Node::Vector { items } => Ast::Vector(asts_of(items@)),
        Node::UnaryPlus { expr } => Ast::UnaryPlus(Box::new(ast_of(expr))),
        Node::UnaryMinus { expr } => Ast::UnaryMinus(Box::new(ast_of(expr))),
        Node::While { condition, block } => Ast::While { condition: asts_of(condition@), block: asts_of(block@) },
        Node::ForEach { item_type, item_name, collection, block } => Ast::ForEach {
            item_type: item_type@,
            item_name: item_name@,
            collection: collection@,
            block: asts_of(block@),
        },
        Node::Declaration { is_mutable, var_type, identifier, initializer } => Ast::Declaration {
            is_mutable: *is_mutable,
            var_type: var_type@,
            identifier: identifier@,
            initializer: Box::new(ast_of(initializer)),
        },
        Node::Assignment { identifier, value } => Ast::Assignment {
            identifier: identifier@,
            value: Box::new(ast_of(value)),
        },
        Node::Program { expressions } => Ast::Program(asts_of(expressions@)),
    }
}

impl View for Node {
    type V = Ast;

    open spec fn view(&self) -> Ast {
        ast_of(self)
    }
}

/// The node for `left op right`.
pub fn binary_node(op: BinOp, left: Node, right: Node) -> (n: Node)
    ensures
        n@ == Ast::Binary(op, Box::new(left@), Box::new(right@)),
{
    let (l, r) = (Box::new(left), Box::new(right));
    match op {
        BinOp::Addition => Node::Addition { left: l, right: r },
        BinOp::Subtraction => Node::Subtraction { left: l, right: r },
        BinOp::Multiplication => Node::Multiplication { left: l, right: r },
        BinOp::Division => Node::Division { left: l, right: r },
        BinOp::IntegerDivision => Node::IntegerDivision { left: l, right: r },
        BinOp::Modulo => Node::Modulo { left: l, right: r },
        BinOp::Power => Node::Power { left: l, right: r },
        BinOp::Equal => Node::Equal { left: l, right: r },
        BinOp::NotEqual => Node::NotEqual { left: l, right: r },
        BinOp::GreaterThan => Node::GreaterThan { left: l, right: r },
        BinOp::GreaterOrEqual => Node::GreaterOrEqual { left: l, right: r },
        BinOp::LessThan => Node::LessThan { left: l, right: r },
        BinOp::LessOrEqual => Node::LessOrEqual { left: l, right: r },
    }
}

/// Appends `n` to `v`, keeping the models in step.
pub fn push_node(v: &mut Vec<Box<Node>>, n: Node)
    ensures
        asts_of(final(v)@) == asts_of(old(v)@).push(n@),
{
    let ghost before = v@;
    v.push(Box::new(n));
    assert(asts_of(v@) =~= asts_of(before).push(n@));
}

/// The character of the decimal digit `d`.
pub open spec fn digit_char(d: nat) -> char {
    if d == 0 {
        '0'
    } else if d == 1 {
        '1'
    } else if d == 2 {
        '2'
    } else if d == 3 {
        '3'
    } else if d == 4 {
        '4'
    } else if d == 5 {
        '5'
    } else if d == 6 {
        '6'
    } else if d == 7 {
        '7'
    } else if d == 8 {
        '8'
    } else {
        '9'
    }
}

/// The decimal spelling of `n`, without leading zeros.
pub open spec fn decimal(n: nat) -> Seq<char>
    decreases n,
{
    if n < 10 {
        seq![digit_char(n)]
    } else {
        decimal(n / 10).push(digit_char(n % 10))
    }
}


// ---------------------------------------------------------------------------
// Rendering a tree as text
// ---------------------------------------------------------------------------

/// `s` repeated `n` times.
pub open spec fn repeat(s: Seq<char>, n: nat) -> Seq<char>
    decreases n,
{
    if n == 0 {
        Seq::empty()
    } else {
        repeat(s, (n - 1) as nat) + s
    }
}

/// The text before a node at depth `indent`: a bar for each enclosing level, then
/// the branch that leads to the node.
pub open spec fn indent_text(indent: nat, last: bool) -> Seq<char> {
    if indent > 0 {
        repeat("│  "@, (indent - 1) as nat) + (if last { "└─"@ } else { "├─"@ })
    } else {
        Seq::empty()
    }
}

/// The decimal text of an integer, with a leading `-` when it is negative.
pub open spec fn int_text(v: int) -> Seq<char> {
    if v < 0 {
        seq!['-'] + decimal((-v) as nat)
    } else {
        decimal(v as nat)
    }
}

pub open spec fn bool_text(b: bool) -> Seq<char> {
    if b {
        "true"@
    } else {
        "false"@
    }
}

pub open spec fn op_name(op: BinOp) -> Seq<char> {
    match op {
        BinOp::Addition => "Addition"@,
        BinOp::Subtraction => "Subtraction"@,
        BinOp::Multiplication => "Multiplication"@,
        BinOp::Division => "Division"@,
        BinOp::IntegerDivision => "IntegerDivision"@,
        BinOp::Modulo => "Modulo"@,
        BinOp::Power => "Power"@,
        BinOp::Equal => "Equal"@,
        BinOp::NotEqual => "NotEqual"@,
        BinOp::GreaterThan => "GreaterThan"@,
        BinOp::GreaterOrEqual => "GreaterOrEqual"@,
        BinOp::LessThan => "LessThan"@,
        BinOp::LessOrEqual => "LessOrEqual"@,
    }
}

/// `indent + k`, or the largest `usize` where that does not fit.
pub open spec fn deeper(indent: nat, k: nat) -> nat {
    if indent + k <= usize::MAX {
        indent + k
    } else {
        usize::MAX as nat
    }
}

/// The renderings of the nodes `xs` at depth `indent`, one after the other; only the
/// last one is marked last, and only when `last` holds.
pub open spec fn render_list(xs: Seq<Ast>, indent: nat, last: bool) -> Seq<char>
    decreases xs,
{
    if xs.len() == 0 {
        Seq::empty()
    } else {
        render_list(xs.drop_last(), indent, false) + render(xs.last(), indent, last)
    }
}

/// A tree as indented text, one line per node and per field.
pub open spec fn render(a: Ast, indent: nat, last: bool) -> Seq<char>
    decreases a,
{
    let p = indent_text(indent, last);
    match a {
        Ast::Program(xs) => p + "Program\n"@ + render_list(xs, deeper(indent, 1), true),
        Ast::While { condition, block } => p + "While\n"@ + (if condition.len() > 0 {
            p + "├─ Condition\n"@ + render_list(condition, deeper(indent, 1), true)
        } else {
            Seq::empty()
        }) + p + "└─ Block\n"@ + render_list(block, deeper(indent, 1), true),
        Ast::ForEach { item_type, item_name, collection, block } => p + "ForEach\n"@ + p
            + "└─ Variable type: "@ + item_type + "\n"@ + p + "└─ Variable Name: "@ + item_name + "\n"@ + p
            + "└─ Collection: "@ + collection + "\n"@ + p + "└─ Block\n"@ + render_list(block, deeper(indent, 1), true),
        Ast::Vector(xs) => p + "Vector\n"@ + render_list(xs, deeper(indent, 1), true),
        Ast::Declaration { is_mutable, var_type, identifier, initializer } => p + "Declaration\n"@ + p
            + "└─ Is Mutable: "@ + bool_text(is_mutable) + "\n"@ + p + "└─ Var Type: "@ + var_type + "\n"@ + p
            + "└─ Identifier: "@ + identifier + "\n"@ + render(*initializer, deeper(indent, 1), true),
        Ast::Integer(v) => p + "└─ Integer: "@ + int_text(v) + "\n"@,
        Ast::Float(t) => p + "└─ Float: "@ + t + "\n"@,
        Ast::Str(t) => p + "└─ String: "@ + t + "\n"@,
        Ast::Boolean(b) => p + "└─ Boolean: "@ + bool_text(b) + "\n"@,
        Ast::Binary(op, l, r) => p + op_name(op) + "\n"@ + render(*l, deeper(indent, 1), false) + render(*r, deeper(indent, 1), true),
        Ast::UnaryPlus(e) => p + "UnaryPlus\n"@ + render(*e, deeper(indent, 1), true),
        Ast::UnaryMinus(e) => p + "UnaryMinus\n"@ + render(*e, deeper(indent, 1), true),
        Ast::Assignment { identifier, value } => p + "Assignment\n"@ + p + "    Identifier: "@ + identifier + "\n"@
            + render(*value, deeper(indent, 2), true),
    }
}

fn digit_str(d: u64) -> (r: &'static str)
    requires
        d < 10,
    ensures
        r@ == seq![digit_char(d as nat)],
{
    proof {
        reveal_strlit("0");
        reveal_strlit("1");
        reveal_strlit("2");
        reveal_strlit("3");
        reveal_strlit("4");
        reveal_strlit("5");
        reveal_strlit("6");
        reveal_strlit("7");
        reveal_strlit("8");
        reveal_strlit("9");
    }
    if d == 0 {
        "0"
    } else if d == 1 {
        "1"
    } else if d == 2 {
        "2"
    } else if d == 3 {
        "3"
    } else if d == 4 {
        "4"
    } else if d == 5 {
        "5"
    } else if d == 6 {
        "6"
    } else if d == 7 {
        "7"
    } else if d == 8 {
        "8"
    } else {
        "9"
    }
}

fn append_decimal(r: &mut String, n: u64)
    ensures
        final(r)@ == old(r)@ + decimal(n as nat),
    decreases n,
{
    if n >= 10 {
        append_decimal(r, n / 10);
    }
    r.append(digit_str(n % 10));
    assert(r@ =~= old(r)@ + decimal(n as nat));
}

fn append_int(r: &mut String, v: i64)
    ensures
        final(r)@ == old(r)@ + int_text(v as int),
{
    if v < 0 {
        r.append("-");
        let m: u64 = (-(v as i128)) as u64;
        append_decimal(r, m);
        proof {
            reveal_strlit("-");
            assert(r@ =~= old(r)@ + int_text(v as int));
        }
    } else {
        append_decimal(r, v as u64);
    }
}

fn indent_string(indent: usize, last: bool) -> (r: String)
    ensures
        r@ == indent_text(indent as nat, last),
{
    let mut r = String::new();
    if indent == 0 {
        return r;
    }
    let mut k: usize = 0;
    while k < indent - 1
        invariant
            k <= indent - 1,
            r@ == repeat("│  "@, k as nat),
        decreases indent - 1 - k,
    {
        r.append("│  ");
        k = k + 1;
    }
    r.append(if last { "└─" } else { "├─" });
    r
}

fn deeper_exec(indent: usize, k: usize) -> (r: usize)
    ensures
        r == deeper(indent as nat, k as nat),
{
    if indent <= usize::MAX - k {
        indent + k
    } else {
        usize::MAX
    }
}

fn append_children(r: &mut String, nodes: &Vec<Box<Node>>, indent: usize)
    ensures
        final(r)@ == old(r)@ + render_list(asts_of(nodes@), indent as nat, true),
    decreases nodes,
{
    let ghost xs = asts_of(nodes@);
    let n = nodes.len();
    let mut k: usize = 0;
    assert(xs.subrange(0, 0) =~= Seq::<Ast>::empty());
    while k < n
        invariant
            k <= n == nodes@.len() == xs.len(),
            xs == asts_of(nodes@),
            r@ == old(r)@ + render_list(xs.subrange(0, k as int), indent as nat, k == n),
        decreases n - k,
    {
        let child = pretty_ast(&nodes[k], indent, k + 1 == n);
        r.append(child.as_str());
        proof {
            let pre = xs.subrange(0, k as int);
            let now = xs.subrange(0, k + 1);
            assert(now.drop_last() =~= pre);
            assert(now.last() == xs[k as int]);
            assert(render_list(now, indent as nat, k + 1 == n) == render_list(pre, indent as nat, false) + render(
                xs[k as int],
                indent as nat,
                k + 1 == n,
            ));
            assert(r@ =~= old(r)@ + render_list(now, indent as nat, k + 1 == n));
        }
        k = k + 1;
    }
    assert(xs.subrange(0, n as int) =~= xs);
}

/// Renders a syntax tree as indented text, one line per node and per field, for
/// people to read.
pub fn pretty_ast(node: &Node, indent: usize, last: bool) -> (r: String)
    ensures
        r@ == render(node@, indent as nat, last),
    decreases node,
{
    let p = indent_string(indent, last);
    let mut r = String::new();
    r.append(p.as_str());
    let one = deeper_exec(indent, 1);
    match node {
        Node::Program { expressions } => {
            r.append("Program\n");
            append_children(&mut r, expressions, one);
        },
        Node::While { condition, block } => {
            r.append("While\n");
            if condition.len() > 0 {
                r.append(p.as_str());
                r.append("├─ Condition\n");
                append_children(&mut r, condition, one);
            }
            r.append(p.as_str());
            r.append("└─ Block\n");
            append_children(&mut r, block, one);
        },
        Node::ForEach { item_type, item_name, collection, block } => {
            r.append("ForEach\n");
            r.append(p.as_str());
            r.append("└─ Variable type: ");
            r.append(item_type.as_str());
            r.append("\n");
            r.append(p.as_str());
            r.append("└─ Variable Name: ");
            r.append(item_name.as_str());
            r.append("\n");
            r.append(p.as_str());
            r.append("└─ Collection: ");
            r.append(collection.as_str());
            r.append("\n");
            r.append(p.as_str());
            r.append("└─ Block\n");
            append_children(&mut r, block, one);
        },
        Node::Vector { items } => {
            r.append("Vector\n");
            append_children(&mut r, items, one);
        },
        Node::Declaration { is_mutable, var_type, identifier, initializer } => {
            r.append("Declaration\n");
            r.append(p.as_str());
            r.append("└─ Is Mutable: ");
            r.append(if *is_mutable { "true" } else { "false" });
            r.append("\n");
            r.append(p.as_str());
            r.append("└─ Var Type: ");
            r.append(var_type.as_str());
            r.append("\n");
            r.append(p.as_str());
            r.append("└─ Identifier: ");
            r.append(identifier.as_str());
            r.append("\n");
            let sub = pretty_ast(initializer, one, true);
            r.append(sub.as_str());
        },
        Node::Integer { value } => {
            r.append("└─ Integer: ");
            append_int(&mut r, *value);
            r.append("\n");
        },
        Node::Float { value } => {
            r.append("└─ Float: ");
            r.append(value.as_str());
            r.append("\n");
        },
        Node::String { value } => {
            r.append("└─ String: ");
            r.append(value.as_str());
            r.append("\n");
        },
        Node::Boolean { value } => {
            r.append("└─ Boolean: ");
            r.append(if *value { "true" } else { "false" });
            r.append("\n");
        },
        Node::Addition { left, right } | Node::Subtraction { left, right } | Node::Multiplication { left, right }
        | Node::Division { left, right } | Node::IntegerDivision { left, right } | Node::Modulo { left, right }
        | Node::Power { left, right } | Node::Equal { left, right } | Node::NotEqual { left, right }
        | Node::GreaterThan { left, right } | Node::GreaterOrEqual { left, right } | Node::LessThan { left, right }
        | Node::LessOrEqual { left, right } => {
            let operation = match node {
                Node::Addition { .. } => "Addition",
                Node::Subtraction { .. } => "Subtraction",
                Node::Multiplication { .. } => "Multiplication",
                Node::Division { .. } => "Division",
                Node::IntegerDivision { .. } => "IntegerDivision",
                Node::Modulo { .. } => "Modulo",
                Node::Power { .. } => "Power",
                Node::Equal { .. } => "Equal",
                Node::NotEqual { .. } => "NotEqual",
                Node::GreaterThan { .. } => "GreaterThan",
                Node::GreaterOrEqual { .. } => "GreaterOrEqual",
                Node::LessThan { .. } => "LessThan",
                _ => "LessOrEqual",
            };
            r.append(operation);
            r.append("\n");
            let l = pretty_ast(left, one, false);
            r.append(l.as_str());
            let rr = pretty_ast(right, one, true);
            r.append(rr.as_str());
        },
        Node::UnaryPlus { expr } => {
            r.append("UnaryPlus\n");
            let sub = pretty_ast(expr, one, true);
            r.append(sub.as_str());
        },
        Node::UnaryMinus { expr } => {
            r.append("UnaryMinus\n");
            let sub = pretty_ast(expr, one, true);
            r.append(sub.as_str());
        },
        Node::Assignment { identifier, value } => {
            r.append("Assignment\n");
            r.append(p.as_str());
            r.append("    Identifier: ");
            r.append(identifier.as_str());
            r.append("\n");
            let sub = pretty_ast(value, deeper_exec(indent, 2), true);
            r.append(sub.as_str());
        },
    }
    r
}

} // verus!
