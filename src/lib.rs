pub mod attributes;
pub mod buffer;
pub mod builder;
pub mod compile;
pub mod context;
pub mod eval;
pub mod iter;
pub mod module;
pub mod opcode;
pub mod text;
pub mod ty;
pub mod validate;
pub mod value;

pub use attributes::Attribute;
pub use buffer::MemoryBuffer;
pub use builder::Builder;
pub use compile::Compile;
pub use context::Context;
pub use iter::ValueIter;
pub use module::{AddressSpace, Module};
pub use opcode::{IntPredicate, Opcode, Predicate, RealPredicate};
pub use ty::{FunctionType, StructType, Type, TypeData, TypeKind};
pub use value::{Arg, BasicBlock, Function, GlobalValue, PhiNode, Value, ValueKind};
