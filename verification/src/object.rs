//! Runtime values, as far as the constant pool holds them.

use vstd::prelude::*;
use std::rc::Rc;
use crate::ast::{copy_identifiers, same_block, BlockStatement, Identifier};
use crate::printing::{block_text, identifiers_text, push_block, push_identifiers};
use crate::text::{push_signed_decimal, signed_decimal};

verus! {

/// A runtime value.
#[derive(Debug, PartialEq)]
pub enum Object {
    Integer(i64),
    Boolean(bool),
    String(String),
    /// A function value: its parameters and its body.
    Function(Vec<Identifier>, BlockStatement),
    /// A value on its way out of a function.
    Return(Rc<Object>),
    Array(Vec<Rc<Object>>),
    Null,
}

/// `Rc::clone`: a second handle to the value that `constant` points to. The
/// value itself is not copied, so the two handles hold the same value.
#[verifier::external_body]
pub(crate) fn share(constant: &Rc<Object>) -> (handle: Rc<Object>)
    ensures
        handle == *constant,
{
    Rc::clone(constant)
}

/// Handles to the same values, in the same order.
pub(crate) fn share_all(pool: &Vec<Rc<Object>>) -> (handles: Vec<Rc<Object>>)
    ensures
        handles@ == pool@,
{
    let mut handles: Vec<Rc<Object>> = Vec::new();
    let mut i: usize = 0;
    while i < pool.len()
        invariant
            i <= pool.len(),
            handles@ == pool@.take(i as int),
        decreases pool.len() - i,
    {
        handles.push(share(&pool[i]));
        assert(pool@.take(i + 1) =~= pool@.take(i as int).push(pool@[i as int]));
        i += 1;
    }
    assert(pool@.take(pool.len() as int) =~= pool@);
    handles
}

/// Whether two values are the same: the same variant with the same
/// content. An array or a returned value shares its content with its copy.
pub open spec fn same_object(a: Object, b: Object) -> bool {
    match a {
        Object::Function(parameters, body) => {
            &&& b matches Object::Function(others, other_body)
            &&& parameters@ == others@
            &&& same_block(body, other_body)
        },
        Object::Array(elements) => b matches Object::Array(others) && elements@ == others@,
        _ => a == b,
    }
}

impl Clone for Object {
    fn clone(&self) -> (copy: Object)
        ensures
            same_object(copy, *self),
    {
        match self {
            Object::Integer(integer) => Object::Integer(*integer),
            Object::Boolean(boolean) => Object::Boolean(*boolean),
            Object::String(string) => Object::String(string.clone()),
            Object::Function(parameters, body) => Object::Function(
                copy_identifiers(parameters),
                body.clone(),
            ),
            Object::Return(value) => Object::Return(share(value)),
            Object::Array(elements) => Object::Array(share_all(elements)),
            Object::Null => Object::Null,
        }
    }
}

/// The text of a value.
pub open spec fn object_text(object: Object) -> Seq<char>
    decreases object,
{
    match object {
        Object::Integer(integer) => signed_decimal(integer as int),
        Object::Boolean(boolean) => if boolean {
            "true"@
        } else {
            "false"@
        },
        Object::String(string) => string@,
        Object::Function(parameters, body) => "fn("@ + identifiers_text(parameters@) + ") {\n"@
            + block_text(body.statements@) + "\n}"@,
        Object::Array(elements) => "["@ + objects_text(elements@) + "]"@,
        Object::Return(value) => object_text(*value),
        Object::Null => "null"@,
    }
}

/// The texts of values, with a comma and a space between one and the next.
pub open spec fn objects_text(objects: Seq<Rc<Object>>) -> Seq<char>
    decreases objects,
{
    if objects.len() == 0 {
        Seq::empty()
    } else if objects.len() == 1 {
        object_text(*objects.last())
    } else {
        objects_text(objects.drop_last()) + ", "@ + object_text(*objects.last())
    }
}

/// Appends the text of a value.
fn push_object(out: &mut String, object: &Object)
    ensures
        final(out)@ == old(out)@ + object_text(*object),
    decreases *object,
{
    match object {
        Object::Integer(integer) => {
            push_signed_decimal(out, *integer);
        },
        Object::Boolean(boolean) => {
            if *boolean {
                out.append("true");
            } else {
                out.append("false");
            }
        },
        Object::String(string) => {
            out.append(string.as_str());
        },
        Object::Function(parameters, body) => {
            out.append("fn(");
            push_identifiers(out, parameters);
            out.append(") {\n");
            push_block(out, body);
            out.append("\n}");
            assert(out@ =~= old(out)@ + object_text(*object));
        },
        Object::Array(elements) => {
            out.append("[");
            push_objects(out, elements);
            out.append("]");
            assert(out@ =~= old(out)@ + object_text(*object));
        },
        Object::Return(value) => {
            push_object(out, value);
        },
        Object::Null => {
            out.append("null");
        },
    }
}

/// Appends the texts of values, with a comma and a space between one and
/// the next.
fn push_objects(out: &mut String, objects: &Vec<Rc<Object>>)
    ensures
        final(out)@ == old(out)@ + objects_text(objects@),
    decreases *objects,
{
    let mut i: usize = 0;
    while i < objects.len()
        invariant
            i <= objects.len(),
            out@ == old(out)@ + objects_text(objects@.take(i as int)),
        decreases objects.len() - i,
    {
        if i > 0 {
            out.append(", ");
        }
        push_object(out, &objects[i]);
        proof {
            let done = objects@.take(i as int);
            let next = objects@.take(i + 1);
            assert(next.drop_last() =~= done);
            assert(next.last() == objects@[i as int]);
            assert(out@ =~= old(out)@ + objects_text(next));
        }
        i += 1;
    }
    assert(objects@.take(objects.len() as int) =~= objects@);
}

impl Object {
    /// The value as text.
    pub fn to_text(&self) -> (text: String)
        ensures
            text@ == object_text(*self),
    {
        let mut text = String::new();
        push_object(&mut text, self);
        assert(text@ =~= object_text(*self));
        text
    }
}

} // verus!
