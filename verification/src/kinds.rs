//! The keyword/capture-tag classifier: a closed tag enumeration and a
//! total mapping from tags to completion and symbol kinds. Unknown tags
//! fall back to the generic text/string bucket; nothing panics.

use vstd::prelude::*;

use crate::strutil::str_eq;
use crate::types::{CompletionItemKind, SymbolKind};

verus! {

/// The closed enumeration of pattern-capture tags the classifier knows.
#[derive(Clone, Copy, Debug, PartialEq, Eq, Structural)]
pub enum CaptureTag {
    Variable,
    Function,
    FunctionMacro,
    Type,
    Label,
    Module,
    Keyword,
    Repeat,
    KeywordOperator,
    KeywordReturn,
    Struct,
    Enum,
    Number,
    Character,
    Boolean,
    Interface,
    Constant,
    ConstantBuiltin,
    StringLiteral,
    StringEscape,
    Include,
    Parameter,
    Property,
    Method,
    Constructor,
    Field,
    File,
    Package,
    Namespace,
    Class,
    EnumMember,
    Getter,
    Setter,
    Operator,
    Punctuation,
    PunctuationBracket,
    PunctuationDelimiter,
    PunctuationSpecial,
    Conditional,
    Other,
}

/// The tag a capture name denotes; any unknown name maps to `Other`.
pub open spec fn spec_tag_of(s: Seq<char>) -> CaptureTag {
    if s == "variable"@ {
        CaptureTag::Variable
    } else if s == "function"@ {
        CaptureTag::Function
    } else if s == "function.macro"@ {
        CaptureTag::FunctionMacro
    } else if s == "type"@ {
        CaptureTag::Type
    } else if s == "label"@ {
        CaptureTag::Label
    } else if s == "module"@ {
        CaptureTag::Module
    } else if s == "keyword"@ {
        CaptureTag::Keyword
    } else if s == "repeat"@ {
        CaptureTag::Repeat
    } else if s == "keyword.operator"@ {
        CaptureTag::KeywordOperator
    } else if s == "keyword.return"@ {
        CaptureTag::KeywordReturn
    } else if s == "struct"@ {
        CaptureTag::Struct
    } else if s == "enum"@ {
        CaptureTag::Enum
    } else if s == "number"@ {
        CaptureTag::Number
    } else if s == "character"@ {
        CaptureTag::Character
    } else if s == "boolean"@ {
        CaptureTag::Boolean
    } else if s == "interface"@ {
        CaptureTag::Interface
    } else if s == "constant"@ {
        CaptureTag::Constant
    } else if s == "constant.builtin"@ {
        CaptureTag::ConstantBuiltin
    } else if s == "string"@ {
        CaptureTag::StringLiteral
    } else if s == "string.escape"@ {
        CaptureTag::StringEscape
    } else if s == "include"@ {
        CaptureTag::Include
    } else if s == "parameter"@ {
        CaptureTag::Parameter
    } else if s == "property"@ {
        CaptureTag::Property
    } else if s == "method"@ {
        CaptureTag::Method
    } else if s == "constructor"@ {
        CaptureTag::Constructor
    } else if s == "field"@ {
        CaptureTag::Field
    } else if s == "file"@ {
        CaptureTag::File
    } else if s == "package"@ {
        CaptureTag::Package
    } else if s == "namespace"@ {
        CaptureTag::Namespace
    } else if s == "class"@ {
        CaptureTag::Class
    } else if s == "enum_member"@ {
        CaptureTag::EnumMember
    } else if s == "getter"@ {
        CaptureTag::Getter
    } else if s == "setter"@ {
        CaptureTag::Setter
    } else if s == "operator"@ {
        CaptureTag::Operator
    } else if s == "punctuation"@ {
        CaptureTag::Punctuation
    } else if s == "punctuation.bracket"@ {
        CaptureTag::PunctuationBracket
    } else if s == "punctuation.delimiter"@ {
        CaptureTag::PunctuationDelimiter
    } else if s == "punctuation.special"@ {
        CaptureTag::PunctuationSpecial
    } else if s == "conditional"@ {
        CaptureTag::Conditional
    } else {
        CaptureTag::Other
    }
}

/// Parses a capture name into its tag; unknown names give `Other`.
pub fn tag_of(name: &str) -> (t: CaptureTag)
    ensures
        t == spec_tag_of(name@),
{
    if str_eq(name, "variable") {
        CaptureTag::Variable
    } else if str_eq(name, "function") {
        CaptureTag::Function
    } else if str_eq(name, "function.macro") {
        CaptureTag::FunctionMacro
    } else if str_eq(name, "type") {
        CaptureTag::Type
    } else if str_eq(name, "label") {
        CaptureTag::Label
    } else if str_eq(name, "module") {
        CaptureTag::Module
    } else if str_eq(name, "keyword") {
        CaptureTag::Keyword
    } else if str_eq(name, "repeat") {
        CaptureTag::Repeat
    } else if str_eq(name, "keyword.operator") {
        CaptureTag::KeywordOperator
    } else if str_eq(name, "keyword.return") {
        CaptureTag::KeywordReturn
    } else if str_eq(name, "struct") {
        CaptureTag::Struct
    } else if str_eq(name, "enum") {
        CaptureTag::Enum
    } else if str_eq(name, "number") {
        CaptureTag::Number
    } else if str_eq(name, "character") {
        CaptureTag::Character
    } else if str_eq(name, "boolean") {
        CaptureTag::Boolean
    } else if str_eq(name, "interface") {
        CaptureTag::Interface
    } else if str_eq(name, "constant") {
        CaptureTag::Constant
    } else if str_eq(name, "constant.builtin") {
        CaptureTag::ConstantBuiltin
    } else if str_eq(name, "string") {
        CaptureTag::StringLiteral
    } else if str_eq(name, "string.escape") {
        CaptureTag::StringEscape
    } else if str_eq(name, "include") {
        CaptureTag::Include
    } else if str_eq(name, "parameter") {
        CaptureTag::Parameter
    } else if str_eq(name, "property") {
        CaptureTag::Property
    } else if str_eq(name, "method") {
        CaptureTag::Method
    } else if str_eq(name, "constructor") {
        CaptureTag::Constructor
    } else if str_eq(name, "field") {
        CaptureTag::Field
    } else if str_eq(name, "file") {
        CaptureTag::File
    } else if str_eq(name, "package") {
        CaptureTag::Package
    } else if str_eq(name, "namespace") {
        CaptureTag::Namespace
    } else if str_eq(name, "class") {
        CaptureTag::Class
    } else if str_eq(name, "enum_member") {
        CaptureTag::EnumMember
    } else if str_eq(name, "getter") {
        CaptureTag::Getter
    } else if str_eq(name, "setter") {
        CaptureTag::Setter
    } else if str_eq(name, "operator") {
        CaptureTag::Operator
    } else if str_eq(name, "punctuation") {
        CaptureTag::Punctuation
    } else if str_eq(name, "punctuation.bracket") {
        CaptureTag::PunctuationBracket
    } else if str_eq(name, "punctuation.delimiter") {
        CaptureTag::PunctuationDelimiter
    } else if str_eq(name, "punctuation.special") {
        CaptureTag::PunctuationSpecial
    } else if str_eq(name, "conditional") {
        CaptureTag::Conditional
    } else {
        CaptureTag::Other
    }
}

/// The completion and symbol kinds of a tag: a total mapping over the
/// closed enumeration.
pub open spec fn spec_kind_of_tag(t: CaptureTag) -> (CompletionItemKind, SymbolKind) {
    match t {
        CaptureTag::Variable => (CompletionItemKind::Variable, SymbolKind::Variable),
        CaptureTag::Function => (CompletionItemKind::Function, SymbolKind::Function),
        CaptureTag::FunctionMacro => (CompletionItemKind::Function, SymbolKind::Function),
        CaptureTag::Type => (CompletionItemKind::TypeParameter, SymbolKind::TypeParameter),
        CaptureTag::Label => (CompletionItemKind::Text, SymbolKind::String),
        CaptureTag::Module => (CompletionItemKind::Module, SymbolKind::Module),
        CaptureTag::Keyword => (CompletionItemKind::Keyword, SymbolKind::Key),
        CaptureTag::Repeat => (CompletionItemKind::Keyword, SymbolKind::Key),
        CaptureTag::KeywordOperator => (CompletionItemKind::Keyword, SymbolKind::Key),
        CaptureTag::KeywordReturn => (CompletionItemKind::Keyword, SymbolKind::Key),
        CaptureTag::Struct => (CompletionItemKind::Struct, SymbolKind::Struct),
        CaptureTag::Enum => (CompletionItemKind::Enum, SymbolKind::Enum),
        CaptureTag::Number => (CompletionItemKind::Value, SymbolKind::Number),
        CaptureTag::Character => (CompletionItemKind::Value, SymbolKind::Number),
        CaptureTag::Boolean => (CompletionItemKind::Value, SymbolKind::Number),
        CaptureTag::Interface => (CompletionItemKind::Interface, SymbolKind::Interface),
        CaptureTag::Constant => (CompletionItemKind::Constant, SymbolKind::Constant),
        CaptureTag::ConstantBuiltin => (CompletionItemKind::Constant, SymbolKind::Constant),
        CaptureTag::StringLiteral => (CompletionItemKind::Text, SymbolKind::String),
        CaptureTag::StringEscape => (CompletionItemKind::Text, SymbolKind::String),
        CaptureTag::Include => (CompletionItemKind::Module, SymbolKind::Module),
        CaptureTag::Parameter => (CompletionItemKind::Variable, SymbolKind::Variable),
        CaptureTag::Property => (CompletionItemKind::Property, SymbolKind::Property),
        CaptureTag::Method => (CompletionItemKind::Method, SymbolKind::Method),
        CaptureTag::Constructor => (CompletionItemKind::Constructor, SymbolKind::Constructor),
        CaptureTag::Field => (CompletionItemKind::Field, SymbolKind::Field),
        CaptureTag::File => (CompletionItemKind::File, SymbolKind::File),
        CaptureTag::Package => (CompletionItemKind::Module, SymbolKind::Module),
        CaptureTag::Namespace => (CompletionItemKind::Module, SymbolKind::Module),
        CaptureTag::Class => (CompletionItemKind::Class, SymbolKind::Class),
        CaptureTag::EnumMember => (CompletionItemKind::EnumMember, SymbolKind::EnumMember),
        CaptureTag::Getter => (CompletionItemKind::Property, SymbolKind::Property),
        CaptureTag::Setter => (CompletionItemKind::Property, SymbolKind::Property),
        CaptureTag::Operator => (CompletionItemKind::Operator, SymbolKind::Operator),
        CaptureTag::Punctuation => (CompletionItemKind::Operator, SymbolKind::Operator),
        CaptureTag::PunctuationBracket => (CompletionItemKind::Operator, SymbolKind::Operator),
        CaptureTag::PunctuationDelimiter => (CompletionItemKind::Operator, SymbolKind::Operator),
        CaptureTag::PunctuationSpecial => (CompletionItemKind::Operator, SymbolKind::Operator),
        CaptureTag::Conditional => (CompletionItemKind::Operator, SymbolKind::Operator),
        CaptureTag::Other => (CompletionItemKind::Text, SymbolKind::String),
    }
}

/// Maps a tag to its completion and symbol kinds.
pub fn kind_of_tag(t: CaptureTag) -> (r: (CompletionItemKind, SymbolKind))
    ensures
        r == spec_kind_of_tag(t),
{
    match t {
        CaptureTag::Variable => (CompletionItemKind::Variable, SymbolKind::Variable),
        CaptureTag::Function => (CompletionItemKind::Function, SymbolKind::Function),
        CaptureTag::FunctionMacro => (CompletionItemKind::Function, SymbolKind::Function),
        CaptureTag::Type => (CompletionItemKind::TypeParameter, SymbolKind::TypeParameter),
        CaptureTag::Label => (CompletionItemKind::Text, SymbolKind::String),
        CaptureTag::Module => (CompletionItemKind::Module, SymbolKind::Module),
        CaptureTag::Keyword => (CompletionItemKind::Keyword, SymbolKind::Key),
        CaptureTag::Repeat => (CompletionItemKind::Keyword, SymbolKind::Key),
        CaptureTag::KeywordOperator => (CompletionItemKind::Keyword, SymbolKind::Key),
        CaptureTag::KeywordReturn => (CompletionItemKind::Keyword, SymbolKind::Key),
        CaptureTag::Struct => (CompletionItemKind::Struct, SymbolKind::Struct),
        CaptureTag::Enum => (CompletionItemKind::Enum, SymbolKind::Enum),
        CaptureTag::Number => (CompletionItemKind::Value, SymbolKind::Number),
        CaptureTag::Character => (CompletionItemKind::Value, SymbolKind::Number),
        CaptureTag::Boolean => (CompletionItemKind::Value, SymbolKind::Number),
        CaptureTag::Interface => (CompletionItemKind::Interface, SymbolKind::Interface),
        CaptureTag::Constant => (CompletionItemKind::Constant, SymbolKind::Constant),
        CaptureTag::ConstantBuiltin => (CompletionItemKind::Constant, SymbolKind::Constant),
        CaptureTag::StringLiteral => (CompletionItemKind::Text, SymbolKind::String),
        CaptureTag::StringEscape => (CompletionItemKind::Text, SymbolKind::String),
        CaptureTag::Include => (CompletionItemKind::Module, SymbolKind::Module),
        CaptureTag::Parameter => (CompletionItemKind::Variable, SymbolKind::Variable),
        CaptureTag::Property => (CompletionItemKind::Property, SymbolKind::Property),
        CaptureTag::Method => (CompletionItemKind::Method, SymbolKind::Method),
        CaptureTag::Constructor => (CompletionItemKind::Constructor, SymbolKind::Constructor),
        CaptureTag::Field => (CompletionItemKind::Field, SymbolKind::Field),
        CaptureTag::File => (CompletionItemKind::File, SymbolKind::File),
        CaptureTag::Package => (CompletionItemKind::Module, SymbolKind::Module),
        CaptureTag::Namespace => (CompletionItemKind::Module, SymbolKind::Module),
        CaptureTag::Class => (CompletionItemKind::Class, SymbolKind::Class),
        CaptureTag::EnumMember => (CompletionItemKind::EnumMember, SymbolKind::EnumMember),
        CaptureTag::Getter => (CompletionItemKind::Property, SymbolKind::Property),
        CaptureTag::Setter => (CompletionItemKind::Property, SymbolKind::Property),
        CaptureTag::Operator => (CompletionItemKind::Operator, SymbolKind::Operator),
        CaptureTag::Punctuation => (CompletionItemKind::Operator, SymbolKind::Operator),
        CaptureTag::PunctuationBracket => (CompletionItemKind::Operator, SymbolKind::Operator),
        CaptureTag::PunctuationDelimiter => (CompletionItemKind::Operator, SymbolKind::Operator),
        CaptureTag::PunctuationSpecial => (CompletionItemKind::Operator, SymbolKind::Operator),
        CaptureTag::Conditional => (CompletionItemKind::Operator, SymbolKind::Operator),
        CaptureTag::Other => (CompletionItemKind::Text, SymbolKind::String),
    }
}

/// The completion and symbol kinds a capture name denotes.
pub open spec fn spec_get_kind(s: Seq<char>) -> (CompletionItemKind, SymbolKind) {
    spec_kind_of_tag(spec_tag_of(s))
}

/// Maps a pattern-capture name to its completion and symbol kinds;
/// unknown names get the generic text/string fallback.
pub fn get_kind(capture_name: &str) -> (r: (CompletionItemKind, SymbolKind))
    ensures
        r == spec_get_kind(capture_name@),
{
    kind_of_tag(tag_of(capture_name))
}

} // verus!
