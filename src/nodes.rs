use vstd::prelude::*;
use vstd::string::*;
use crate::generator::{emit, push_token, separated, LuaGenerator};

verus! {

/// Appending one more token is one more step of `emit`.
pub proof fn lemma_emit_push(out: Seq<char>, tokens: Seq<Seq<char>>, t: Seq<char>)
    ensures
        emit(out, tokens.push(t)) == push_token(emit(out, tokens), t),
{
    assert(tokens.push(t).drop_last() =~= tokens);
}

/// The separated form of one more token adds a separator, unless it is the first.
pub proof fn lemma_separated_push(tokens: Seq<Seq<char>>, sep: Seq<char>, t: Seq<char>)
    ensures
        tokens.len() == 0 ==> separated(tokens.push(t), sep) == seq![t],
        tokens.len() > 0 ==> separated(tokens.push(t), sep) == separated(tokens, sep).push(sep).push(t),
{
    assert(tokens.push(t).drop_last() =~= tokens);
    if tokens.len() == 0 {
        assert(tokens.push(t) =~= seq![t]);
    }
}

/// Appending two runs of tokens is appending their concatenation.
pub proof fn lemma_emit_concat(out: Seq<char>, a: Seq<Seq<char>>, b: Seq<Seq<char>>)
    ensures
        emit(out, a + b) == emit(emit(out, a), b),
    decreases b.len(),
{
    if b.len() == 0 {
        assert(a + b =~= a);
    } else {
        lemma_emit_concat(out, a, b.drop_last());
        assert((a + b).drop_last() =~= a + b.drop_last());
        assert((a + b).last() == b.last());
    }
}

/// An expression of the language.
#[derive(Clone, Debug, PartialEq, Eq)]
pub enum Expression {
    Nil,
    True,
    False,
    VariableArguments,
    Identifier(String),
}

impl Expression {
    /// The source text of the expression.
    pub open spec fn token(&self) -> Seq<char> {
        match self {
            Expression::Nil => "nil"@,
            Expression::True => "true"@,
            Expression::False => "false"@,
            Expression::VariableArguments => "..."@,
            Expression::Identifier(name) => name@,
        }
    }

    pub fn to_lua(&self, generator: &mut LuaGenerator)
        requires
            old(generator).wf(),
        ensures
            final(generator).wf(),
            final(generator)@ == push_token(old(generator)@, self.token()),
    {
        match self {
            Expression::Nil => generator.push_str("nil"),
            Expression::True => generator.push_str("true"),
            Expression::False => generator.push_str("false"),
            Expression::VariableArguments => generator.push_str("..."),
            Expression::Identifier(name) => generator.push_str(name.as_str()),
        }
    }
}

/// A `local` statement: variable names, and the values assigned to them.
/// The two lists are sized independently.
#[derive(Clone, Debug, PartialEq, Eq)]
pub struct LocalAssignStatement {
    variables: Vec<String>,
    values: Vec<Expression>,
}

impl LocalAssignStatement {
    pub closed spec fn spec_variables(&self) -> Seq<String> {
        self.variables@
    }

    pub closed spec fn spec_values(&self) -> Seq<Expression> {
        self.values@
    }

    pub open spec fn variable_tokens(&self) -> Seq<Seq<char>> {
        self.spec_variables().map_values(|v: String| v@)
    }

    pub open spec fn value_tokens(&self) -> Seq<Seq<char>> {
        self.spec_values().map_values(|e: Expression| e.token())
    }

    /// The tokens of the statement: the keyword, the variables separated by commas,
    /// then, only where there are values, `=` and the values separated by commas.
    pub open spec fn tokens(&self) -> Seq<Seq<char>> {
        let head = seq!["local"@] + separated(self.variable_tokens(), ","@);
        if self.spec_values().len() > 0 {
            head + seq!["="@] + separated(self.value_tokens(), ","@)
        } else {
            head
        }
    }

    pub fn new(variables: Vec<String>, values: Vec<Expression>) -> (r: Self)
        ensures
            r.spec_variables() == variables@,
            r.spec_values() == values@,
    {
        LocalAssignStatement { variables, values }
    }

    pub fn from_variable(variable: &str) -> (r: Self)
        ensures
            r.spec_variables().len() == 1,
            r.spec_variables()[0]@ == variable@,
            r.spec_values().len() == 0,
    {
        let mut variables: Vec<String> = Vec::new();
        variables.push(String::from_str(variable));
        LocalAssignStatement { variables, values: Vec::new() }
    }

    pub fn with_variable(self, variable: &str) -> (r: Self)
        ensures
            r.spec_variables().len() == self.spec_variables().len() + 1,
            r.spec_variables().drop_last() == self.spec_variables(),
            r.spec_variables().last()@ == variable@,
            r.spec_values() == self.spec_values(),
    {
        let mut s = self;
        s.variables.push(String::from_str(variable));
        proof {
            assert(s.variables@.drop_last() =~= self.variables@);
        }
        s
    }

    pub fn with_value(self, value: Expression) -> (r: Self)
        ensures
            r.spec_variables() == self.spec_variables(),
            r.spec_values() == self.spec_values().push(value),
    {
        let mut s = self;
        s.values.push(value);
        s
    }

    pub fn get_variables(&self) -> (r: &Vec<String>)
        ensures
            r@ == self.spec_variables(),
    {
        &self.variables
    }

    pub fn mutate_variables(&mut self) -> (r: &mut Vec<String>)
        ensures
            r@ == old(self).spec_variables(),
            final(self).spec_variables() == final(r)@,
            final(self).spec_values() == old(self).spec_values(),
    {
        &mut self.variables
    }

    pub fn mutate_values(&mut self) -> (r: &mut Vec<Expression>)
        ensures
            r@ == old(self).spec_values(),
            final(self).spec_values() == final(r)@,
            final(self).spec_variables() == old(self).spec_variables(),
    {
        &mut self.values
    }

    /// Renders the statement: every token in order, commas between consecutive
    /// variables and between consecutive values, and no `=` when there is no value.
    pub fn to_lua(&self, generator: &mut LuaGenerator)
        requires
            old(generator).wf(),
        ensures
            final(generator).wf(),
            final(generator)@ == emit(old(generator)@, self.tokens()),
    {
        let ghost start = generator@;
        let ghost vars = self.variable_tokens();
        let ghost vals = self.value_tokens();
        generator.push_str("local");
        proof {
            lemma_emit_push(start, seq![], "local"@);
            assert(seq![].push("local"@) =~= seq!["local"@]);
            assert(seq!["local"@] + separated(vars.take(0), ","@) =~= seq!["local"@]);
        }
        let mut i: usize = 0;
        while i < self.variables.len()
            invariant
                generator.wf(),
                i <= self.variables@.len(),
                vars == self.variable_tokens(),
                generator@ == emit(start, seq!["local"@] + separated(vars.take(i as int), ","@)),
            decreases self.variables@.len() - i,
        {
            let ghost before = seq!["local"@] + separated(vars.take(i as int), ","@);
            proof {
                lemma_separated_push(vars.take(i as int), ","@, vars[i as int]);
                assert(vars.take(i + 1) =~= vars.take(i as int).push(vars[i as int]));
            }
            if i > 0 {
                generator.push_str(",");
                proof {
                    lemma_emit_push(start, before, ","@);
                }
            }
            generator.push_str(self.variables[i].as_str());
            proof {
                if i > 0 {
                    lemma_emit_push(start, before.push(","@), vars[i as int]);
                    assert(before.push(","@).push(vars[i as int]) =~= seq!["local"@] + separated(
                        vars.take(i + 1),
                        ","@,
                    ));
                } else {
                    lemma_emit_push(start, before, vars[i as int]);
                    assert(before.push(vars[i as int]) =~= seq!["local"@] + separated(
                        vars.take(i + 1),
                        ","@,
                    ));
                }
            }
            i = i + 1;
        }
        proof {
            assert(vars.take(i as int) =~= vars);
        }
        if self.values.len() == 0 {
            return;
        }
        let ghost head = seq!["local"@] + separated(vars, ","@);
        generator.push_str("=");
        proof {
            lemma_emit_push(start, head, "="@);
            assert(head.push("="@) + separated(vals.take(0), ","@) =~= head + seq!["="@]);
            assert(head.push("="@) =~= head + seq!["="@]);
        }
        let ghost eq_head = head + seq!["="@];
        let mut j: usize = 0;
        while j < self.values.len()
            invariant
                generator.wf(),
                j <= self.values@.len(),
                vals == self.value_tokens(),
                eq_head == seq!["local"@] + separated(vars, ","@) + seq!["="@],
                generator@ == emit(start, eq_head + separated(vals.take(j as int), ","@)),
            decreases self.values@.len() - j,
        {
            let ghost before = eq_head + separated(vals.take(j as int), ","@);
            proof {
                lemma_separated_push(vals.take(j as int), ","@, vals[j as int]);
                assert(vals.take(j + 1) =~= vals.take(j as int).push(vals[j as int]));
            }
            if j > 0 {
                generator.push_str(",");
                proof {
                    lemma_emit_push(start, before, ","@);
                }
            }
            self.values[j].to_lua(generator);
            proof {
                if j > 0 {
                    lemma_emit_push(start, before.push(","@), vals[j as int]);
                    assert(before.push(","@).push(vals[j as int]) =~= eq_head + separated(
                        vals.take(j + 1),
                        ","@,
                    ));
                } else {
                    lemma_emit_push(start, before, vals[j as int]);
                    assert(before.push(vals[j as int]) =~= eq_head + separated(
                        vals.take(j + 1),
                        ","@,
                    ));
                }
            }
            j = j + 1;
        }
        proof {
            assert(vals.take(j as int) =~= vals);
        }
    }

    /// The rendered text of the statement alone.
    pub fn to_lua_string(&self) -> (r: String)
        ensures
            r@ == emit(Seq::<char>::empty(), self.tokens()),
    {
        let mut generator = LuaGenerator::new();
        self.to_lua(&mut generator);
        generator.into_string()
    }
}

/// A statement of the language.
#[derive(Debug, PartialEq, Eq)]
pub enum Statement {
    LocalAssign(LocalAssignStatement),
    Do(Block),
}

/// The tokens of a statement: those of a `local` statement, or `do`, the tokens of
/// its block, and `end`.
pub open spec fn statement_tokens(statement: Statement) -> Seq<Seq<char>>
    decreases statement,
{
    match statement {
        Statement::LocalAssign(local) => local.tokens(),
        Statement::Do(block) => seq!["do"@] + block_tokens(block) + seq!["end"@],
    }
}

/// The tokens of a block: those of its statements, in order.
pub open spec fn block_tokens(block: Block) -> Seq<Seq<char>>
    decreases block,
{
    prefix_tokens(block, block.spec_statements().len())
}

/// The tokens of the first `n` statements of a block.
pub closed spec fn prefix_tokens(block: Block, n: nat) -> Seq<Seq<char>>
    decreases block, n,
{
    if n == 0 || n > block.statements@.len() {
        Seq::empty()
    } else {
        prefix_tokens(block, (n - 1) as nat) + statement_tokens(block.statements@[n - 1])
    }
}

/// The tokens of the first `n + 1` statements: those of the first `n`, then those of
/// statement `n`.
pub proof fn lemma_prefix_tokens_step(block: Block, n: nat)
    requires
        n < block.spec_statements().len(),
    ensures
        prefix_tokens(block, n + 1) == prefix_tokens(block, n) + statement_tokens(
            block.spec_statements()[n as int],
        ),
        n == 0 ==> prefix_tokens(block, n) == Seq::<Seq<char>>::empty(),
{
}

impl Statement {
    /// A `do ... end` statement whose block holds no statement.
    pub open spec fn is_empty_do(&self) -> bool {
        match self {
            Statement::Do(block) => block.spec_statements().len() == 0,
            _ => false,
        }
    }

    pub fn to_lua(&self, generator: &mut LuaGenerator)
        requires
            old(generator).wf(),
        ensures
            final(generator).wf(),
            final(generator)@ == emit(old(generator)@, statement_tokens(*self)),
        decreases self,
    {
        match self {
            Statement::LocalAssign(local) => local.to_lua(generator),
            Statement::Do(block) => {
                let ghost start = generator@;
                let ghost inner = block_tokens(*block);
                generator.push_str("do");
                proof {
                    lemma_emit_push(start, seq![], "do"@);
                    assert(seq![].push("do"@) =~= seq!["do"@]);
                }
                block.to_lua(generator);
                generator.push_str("end");
                proof {
                    lemma_emit_concat(start, seq!["do"@], inner);
                    lemma_emit_push(start, seq!["do"@] + inner, "end"@);
                    assert((seq!["do"@] + inner).push("end"@) =~= seq!["do"@] + inner + seq![
                        "end"@,
                    ]);
                }
            },
        }
    }

    /// The rendered text of the statement alone.
    pub fn to_lua_string(&self) -> (r: String)
        ensures
            r@ == emit(Seq::<char>::empty(), statement_tokens(*self)),
    {
        let mut generator = LuaGenerator::new();
        self.to_lua(&mut generator);
        generator.into_string()
    }

    pub fn check_empty_do(&self) -> (r: bool)
        ensures
            r == self.is_empty_do(),
    {
        match self {
            Statement::Do(block) => block.is_empty(),
            _ => false,
        }
    }
}

/// An ordered sequence of statements: one scope of the language.
#[derive(Debug, PartialEq, Eq)]
pub struct Block {
    statements: Vec<Statement>,
}

impl Block {
    pub closed spec fn spec_statements(&self) -> Seq<Statement> {
        self.statements@
    }

    pub fn new(statements: Vec<Statement>) -> (r: Self)
        ensures
            r.spec_statements() == statements@,
    {
        Block { statements }
    }

    pub fn with_statement(self, statement: Statement) -> (r: Self)
        ensures
            r.spec_statements() == self.spec_statements().push(statement),
    {
        let mut s = self;
        s.statements.push(statement);
        s
    }

    pub fn is_empty(&self) -> (r: bool)
        ensures
            r == (self.spec_statements().len() == 0),
    {
        self.statements.len() == 0
    }

    /// Renders each statement in order.
    pub fn to_lua(&self, generator: &mut LuaGenerator)
        requires
            old(generator).wf(),
        ensures
            final(generator).wf(),
            final(generator)@ == emit(old(generator)@, block_tokens(*self)),
        decreases self,
    {
        let ghost start = generator@;
        let mut i: usize = 0;
        while i < self.statements.len()
            invariant
                generator.wf(),
                i <= self.statements@.len(),
                generator@ == emit(start, prefix_tokens(*self, i as nat)),
            decreases self.statements@.len() - i,
        {
            proof {
                lemma_prefix_tokens_step(*self, i as nat);
                lemma_emit_concat(
                    start,
                    prefix_tokens(*self, i as nat),
                    statement_tokens(self.statements@[i as int]),
                );
            }
            self.statements[i].to_lua(generator);
            i = i + 1;
        }
    }

    /// The rendered text of the block.
    pub fn to_lua_string(&self) -> (r: String)
        ensures
            r@ == emit(Seq::<char>::empty(), block_tokens(*self)),
    {
        let mut generator = LuaGenerator::new();
        self.to_lua(&mut generator);
        generator.into_string()
    }

    pub fn get_statements(&self) -> (r: &Vec<Statement>)
        ensures
            r@ == self.spec_statements(),
    {
        &self.statements
    }

    pub fn mutate_statements(&mut self) -> (r: &mut Vec<Statement>)
        ensures
            r@ == old(self).spec_statements(),
            final(self).spec_statements() == final(r)@,
    {
        &mut self.statements
    }
}

} // verus!
