//! Randomized equivalence of the two execution routes: lowering followed by
//! the stack interpreter must agree with a reference tree-walking evaluator
//! of the same AST, on termination and on the final variable bindings.

use dcz::ast::{DataType, Expr};
use dcz::ir::Ast2Ir;
use dcz::token_type::TokenType;
use dcz::value::Value;
use dcz::vm::{Stack, VM};

const FUEL: u64 = 1_000_000;

/// A reference tree-walking evaluator over the same AST semantics the
/// interpreter implements: a flat integer environment where the first
/// writer of a declared name wins, assignment overwrites, and a block's
/// declarations vanish when the block ends.
struct RefEval {
    env: Vec<(String, i64)>,
}

impl RefEval {
    fn lookup(&self, n: &str) -> i64 {
        self.env
            .iter()
            .find(|(k, _)| k == n)
            .map(|(_, v)| *v)
            .expect("reference evaluator: unbound name")
    }

    fn eval_int(&self, e: &Expr) -> i64 {
        match e {
            Expr::Literal(Value::Number(v)) => *v,
            Expr::Var(n) => self.lookup(n),
            Expr::Grouping(g) => self.eval_int(g),
            Expr::Binary(l, op, r) => {
                let a = self.eval_int(l);
                let b = self.eval_int(r);
                match op {
                    TokenType::Plus => a.wrapping_add(b),
                    TokenType::Minus => a.wrapping_sub(b),
                    TokenType::Star => a.wrapping_mul(b),
                    other => panic!("reference evaluator: operator {:?}", other),
                }
            },
            other => panic!("reference evaluator: expression {:?}", other),
        }
    }

    fn eval_bool(&self, e: &Expr) -> bool {
        match e {
            Expr::Binary(l, op, r) => {
                let a = self.eval_int(l);
                let b = self.eval_int(r);
                match op {
                    TokenType::Less => a < b,
                    TokenType::LessEqual => a <= b,
                    TokenType::Greater => a > b,
                    TokenType::GreaterEqual => a >= b,
                    TokenType::EqualEqual => a == b,
                    TokenType::NotEqual => a != b,
                    other => panic!("reference evaluator: condition {:?}", other),
                }
            },
            other => panic!("reference evaluator: condition {:?}", other),
        }
    }

    fn declare(&mut self, n: &str, v: i64) {
        if !self.env.iter().any(|(k, _)| k == n) {
            self.env.push((n.to_string(), v));
        }
    }

    fn assign(&mut self, n: &str, v: i64) {
        let slot = self
            .env
            .iter_mut()
            .find(|(k, _)| k == n)
            .expect("reference evaluator: assignment to unbound name");
        slot.1 = v;
    }

    fn remove(&mut self, n: &str) {
        if let Some(i) = self.env.iter().position(|(k, _)| k == n) {
            self.env.remove(i);
        }
    }

    fn run_stmt(&mut self, e: &Expr) {
        match e {
            Expr::VarDecl(_, _, _, n, init) => {
                let v = init.as_ref().map(|iv| self.eval_int(iv)).unwrap_or(0);
                self.declare(n, v);
            },
            Expr::Assign(n, rhs) => {
                let v = self.eval_int(rhs);
                self.assign(n, v);
            },
            Expr::WhileStmt(cond, body) => {
                while self.eval_bool(cond) {
                    self.run_stmt(body);
                }
            },
            Expr::IfStmt(cond, then, els) => {
                if self.eval_bool(cond) {
                    self.run_stmt(then);
                } else if !matches!(**els, Expr::Empty) {
                    self.run_stmt(els);
                }
            },
            Expr::Block(stmts) => {
                let mut declared: Vec<String> = Vec::new();
                for st in stmts {
                    if let Expr::VarDecl(_, _, _, n, _) = st {
                        declared.push(n.clone());
                    }
                    self.run_stmt(st);
                }
                for n in &declared {
                    self.remove(n);
                }
            },
            Expr::Statement(st) => self.run_stmt(st),
            other => panic!("reference evaluator: statement {:?}", other),
        }
    }
}

fn reference_eval(program: &[Expr]) -> Vec<(String, i64)> {
    let mut ev = RefEval { env: Vec::new() };
    for st in program {
        ev.run_stmt(st);
    }
    ev.env
}

/// A small deterministic generator (a linear congruential step), so the
/// hundred programs are the same on every run.
struct Gen {
    state: u64,
}

impl Gen {
    fn next(&mut self, bound: u64) -> u64 {
        self.state = self
            .state
            .wrapping_mul(6364136223846793005)
            .wrapping_add(1442695040888963407);
        (self.state >> 33) % bound
    }
}

fn num(v: i64) -> Expr {
    Expr::Literal(Value::Number(v))
}

fn var(n: &str) -> Expr {
    Expr::Var(n.to_string())
}

fn decl(n: &str, v: i64) -> Expr {
    Expr::VarDecl(DataType::Int, false, false, n.to_string(), Some(Box::new(num(v))))
}

/// A random small loop program over three counters: declarations, a couple
/// of straight-line assignments, and one or two terminating while loops
/// whose bodies step a counter and mix in arithmetic on the others.
fn random_loop_program(g: &mut Gen) -> Vec<Expr> {
    let names = ["a", "b", "c"];
    let mut program: Vec<Expr> = Vec::new();
    for n in &names {
        program.push(decl(n, g.next(7) as i64));
    }
    let bin_ops = [TokenType::Plus, TokenType::Minus, TokenType::Star];
    let rand_assign = |g: &mut Gen| -> Expr {
        let target = names[g.next(3) as usize];
        let left = names[g.next(3) as usize];
        let op = bin_ops[g.next(3) as usize];
        let rhs: Expr = if g.next(2) == 0 {
            num(g.next(5) as i64)
        } else {
            var(names[g.next(3) as usize])
        };
        Expr::Assign(
            target.to_string(),
            Box::new(Expr::Binary(Box::new(var(left)), op, Box::new(rhs))),
        )
    };
    program.push(rand_assign(g));
    let loops: u64 = 1 + g.next(2);
    for _ in 0..loops {
        // A counter driven from a fresh start to a bound with a positive
        // step always terminates; a bound of 0 gives a zero-trip loop.
        let counter = names[g.next(3) as usize];
        let start: i64 = 0;
        let bound: i64 = g.next(6) as i64;
        let step: i64 = 1 + g.next(2) as i64;
        program.push(Expr::Assign(counter.to_string(), Box::new(num(start))));
        let mut body_stmts = vec![Expr::Assign(
            counter.to_string(),
            Box::new(Expr::Binary(Box::new(var(counter)), TokenType::Plus, Box::new(num(step)))),
        )];
        if g.next(2) == 0 {
            let others: Vec<&str> = names.iter().filter(|n| **n != counter).cloned().collect();
            let target = others[g.next(2) as usize];
            let left = names[g.next(3) as usize];
            let op = bin_ops[g.next(3) as usize];
            body_stmts.push(Expr::Assign(
                target.to_string(),
                Box::new(Expr::Binary(
                    Box::new(var(left)),
                    op,
                    Box::new(num(g.next(5) as i64)),
                )),
            ));
        }
        let body: Expr = if body_stmts.len() == 1 {
            body_stmts.pop().unwrap()
        } else {
            Expr::Block(body_stmts)
        };
        program.push(Expr::WhileStmt(
            Box::new(Expr::Binary(Box::new(var(counter)), TokenType::Less, Box::new(num(bound)))),
            Box::new(body),
        ));
    }
    program.push(rand_assign(g));
    program
}

fn vm_bindings(program: &[Expr]) -> Vec<(String, i64)> {
    let mut pass = Ast2Ir::new(program.iter().map(clone_expr).collect());
    let ir = pass.to_ir().expect("lowering");
    let mut vm = VM::new(pass.const_pool.dup());
    let bindings = vm.run_bindings(&ir.instr, 0, FUEL).expect("execution");
    bindings
        .into_iter()
        .map(|(n, s)| match s {
            Stack::Value(Value::Number(v)) => (n, v),
            other => panic!("expected an integer binding, got {:?}", other),
        })
        .collect()
}

/// A structural copy of the AST shapes the generator produces.
fn clone_expr(e: &Expr) -> Expr {
    match e {
        Expr::Literal(Value::Number(v)) => num(*v),
        Expr::Var(n) => var(n),
        Expr::Binary(l, op, r) => {
            Expr::Binary(Box::new(clone_expr(l)), *op, Box::new(clone_expr(r)))
        },
        Expr::Assign(n, rhs) => Expr::Assign(n.clone(), Box::new(clone_expr(rhs))),
        Expr::VarDecl(d, p, c, n, init) => Expr::VarDecl(
            *d,
            *p,
            *c,
            n.clone(),
            init.as_ref().map(|iv| Box::new(clone_expr(iv))),
        ),
        Expr::WhileStmt(cond, body) => {
            Expr::WhileStmt(Box::new(clone_expr(cond)), Box::new(clone_expr(body)))
        },
        Expr::Block(stmts) => Expr::Block(stmts.iter().map(clone_expr).collect()),
        other => panic!("generator produced {:?}", other),
    }
}

/// The lowered form run on the interpreter gives the same termination and
/// the same final bindings as the reference tree-walking evaluator, on a
/// hundred generated small loop programs.
#[test]
fn lowered_loops_match_reference_evaluator() {
    let mut g = Gen { state: 0x3cf5_a1d2_9b04_77ee };
    for round in 0..100 {
        let program = random_loop_program(&mut g);
        let expected = reference_eval(&program);
        let got = vm_bindings(&program);
        assert_eq!(
            got.len(),
            expected.len(),
            "round {}: binding count differs for {:?}",
            round,
            program
        );
        for (n, v) in &expected {
            let found = got.iter().find(|(gn, _)| gn == n).map(|(_, gv)| *gv);
            assert_eq!(found, Some(*v), "round {}: binding {} for {:?}", round, n, program);
        }
    }
}
