//! The items that are generated for a small hierarchy stand here twice: as
//! items, which the compiler builds, and as text, which is held against what
//! the generator gives. The one difference is the macro that writes: the
//! items say `f.write_str(&format!(..))` where the generated text says
//! `write!(f, ..)`, with the same format string and the same argument.

use hierrorchy::{error_leaf, error_node};
use std::error::Error;

#[derive(Debug)]
struct Overflow ;
impl std::fmt::Display for Overflow {
    fn fmt(&self, f: &mut std::fmt::Formatter<'_>) -> std::fmt::Result {
        f.write_str(&format!("{}", "overflow detected"))
    }
}
impl std::error::Error for Overflow {}

const OVERFLOW: &str = r#"#[derive(Debug)]
struct Overflow ;
impl std::fmt::Display for Overflow {
    fn fmt(&self, f: &mut std::fmt::Formatter<'_>) -> std::fmt::Result {
        f.write_str(&format!("{}", "overflow detected"))
    }
}
impl std::error::Error for Overflow {}
"#;

#[derive(Debug)]
enum ParseErrorNode {
    Variant0(Overflow),
}
impl std::fmt::Display for ParseErrorNode {
    fn fmt(&self, f: &mut std::fmt::Formatter<'_>) -> std::fmt::Result {
        f.write_str(&format!("ParseErrorNode: {}", &self.source().expect("ParseErrorNode always has a source")))
    }
}
impl std::error::Error for ParseErrorNode {
    fn source(&self) -> Option<&(dyn std::error::Error + 'static)> {
        match self {
            Self::Variant0(err) => Some(err),
        }
    }
}
impl From<Overflow> for ParseErrorNode {
    fn from(value: Overflow) -> Self {
        Self::Variant0(value)
    }
}

const PARSE_ERROR_NODE: &str = r#"#[derive(Debug)]
enum ParseErrorNode {
    Variant0(Overflow),
}
impl std::fmt::Display for ParseErrorNode {
    fn fmt(&self, f: &mut std::fmt::Formatter<'_>) -> std::fmt::Result {
        f.write_str(&format!("ParseErrorNode: {}", &self.source().expect("ParseErrorNode always has a source")))
    }
}
impl std::error::Error for ParseErrorNode {
    fn source(&self) -> Option<&(dyn std::error::Error + 'static)> {
        match self {
            Self::Variant0(err) => Some(err),
        }
    }
}
impl From<Overflow> for ParseErrorNode {
    fn from(value: Overflow) -> Self {
        Self::Variant0(value)
    }
}
"#;

#[derive(Debug)]
struct IoFault { code : i32 , }
impl std::fmt::Display for IoFault {
    fn fmt(&self, f: &mut std::fmt::Formatter<'_>) -> std::fmt::Result {
        f.write_str(&format!("{}", "io fault"))
    }
}
impl std::error::Error for IoFault {}

const IO_FAULT: &str = r#"#[derive(Debug)]
struct IoFault { code : i32 , }
impl std::fmt::Display for IoFault {
    fn fmt(&self, f: &mut std::fmt::Formatter<'_>) -> std::fmt::Result {
        f.write_str(&format!("{}", "io fault"))
    }
}
impl std::error::Error for IoFault {}
"#;

#[derive(Debug)]
struct Refused { who : String , tries : i64 , }
impl std::fmt::Display for Refused {
    fn fmt(&self, f: &mut std::fmt::Formatter<'_>) -> std::fmt::Result {
        f.write_str(&format!("{}", format ! ("{} refused after {} tries" , self . who , self . tries)))
    }
}
impl std::error::Error for Refused {}

const REFUSED: &str = r#"#[derive(Debug)]
struct Refused { who : String , tries : i64 , }
impl std::fmt::Display for Refused {
    fn fmt(&self, f: &mut std::fmt::Formatter<'_>) -> std::fmt::Result {
        f.write_str(&format!("{}", format ! ("{} refused after {} tries" , self . who , self . tries)))
    }
}
impl std::error::Error for Refused {}
"#;

#[derive(Debug)]
enum LowNode {
    Variant0(IoFault),
    Variant1(Refused),
}
impl std::fmt::Display for LowNode {
    fn fmt(&self, f: &mut std::fmt::Formatter<'_>) -> std::fmt::Result {
        f.write_str(&format!("low: {}", &self.source().expect("LowNode always has a source")))
    }
}
impl std::error::Error for LowNode {
    fn source(&self) -> Option<&(dyn std::error::Error + 'static)> {
        match self {
            Self::Variant0(err) => Some(err),
            Self::Variant1(err) => Some(err),
        }
    }
}
impl From<IoFault> for LowNode {
    fn from(value: IoFault) -> Self {
        Self::Variant0(value)
    }
}
impl From<Refused> for LowNode {
    fn from(value: Refused) -> Self {
        Self::Variant1(value)
    }
}

const LOW_NODE: &str = r#"#[derive(Debug)]
enum LowNode {
    Variant0(IoFault),
    Variant1(Refused),
}
impl std::fmt::Display for LowNode {
    fn fmt(&self, f: &mut std::fmt::Formatter<'_>) -> std::fmt::Result {
        f.write_str(&format!("low: {}", &self.source().expect("LowNode always has a source")))
    }
}
impl std::error::Error for LowNode {
    fn source(&self) -> Option<&(dyn std::error::Error + 'static)> {
        match self {
            Self::Variant0(err) => Some(err),
            Self::Variant1(err) => Some(err),
        }
    }
}
impl From<IoFault> for LowNode {
    fn from(value: IoFault) -> Self {
        Self::Variant0(value)
    }
}
impl From<Refused> for LowNode {
    fn from(value: Refused) -> Self {
        Self::Variant1(value)
    }
}
"#;

#[derive(Debug)]
pub enum HighNode {
    Variant0(LowNode),
    Variant1(std::fmt::Error),
}
impl std::fmt::Display for HighNode {
    fn fmt(&self, f: &mut std::fmt::Formatter<'_>) -> std::fmt::Result {
        f.write_str(&format!("high: {}", &self.source().expect("HighNode always has a source")))
    }
}
impl std::error::Error for HighNode {
    fn source(&self) -> Option<&(dyn std::error::Error + 'static)> {
        match self {
            Self::Variant0(err) => Some(err),
            Self::Variant1(err) => Some(err),
        }
    }
}
impl From<LowNode> for HighNode {
    fn from(value: LowNode) -> Self {
        Self::Variant0(value)
    }
}
impl From<std::fmt::Error> for HighNode {
    fn from(value: std::fmt::Error) -> Self {
        Self::Variant1(value)
    }
}

const HIGH_NODE: &str = r#"#[derive(Debug)]
pub enum HighNode {
    Variant0(LowNode),
    Variant1(std::fmt::Error),
}
impl std::fmt::Display for HighNode {
    fn fmt(&self, f: &mut std::fmt::Formatter<'_>) -> std::fmt::Result {
        f.write_str(&format!("high: {}", &self.source().expect("HighNode always has a source")))
    }
}
impl std::error::Error for HighNode {
    fn source(&self) -> Option<&(dyn std::error::Error + 'static)> {
        match self {
            Self::Variant0(err) => Some(err),
            Self::Variant1(err) => Some(err),
        }
    }
}
impl From<LowNode> for HighNode {
    fn from(value: LowNode) -> Self {
        Self::Variant0(value)
    }
}
impl From<std::fmt::Error> for HighNode {
    fn from(value: std::fmt::Error) -> Self {
        Self::Variant1(value)
    }
}
"#;

#[derive(Debug)]
enum Braced {
    Variant0(Overflow),
}
impl std::fmt::Display for Braced {
    fn fmt(&self, f: &mut std::fmt::Formatter<'_>) -> std::fmt::Result {
        f.write_str(&format!("{{0}} \"q\" }}{{: {}", &self.source().expect("Braced always has a source")))
    }
}
impl std::error::Error for Braced {
    fn source(&self) -> Option<&(dyn std::error::Error + 'static)> {
        match self {
            Self::Variant0(err) => Some(err),
        }
    }
}
impl From<Overflow> for Braced {
    fn from(value: Overflow) -> Self {
        Self::Variant0(value)
    }
}

const BRACED: &str = r#"#[derive(Debug)]
enum Braced {
    Variant0(Overflow),
}
impl std::fmt::Display for Braced {
    fn fmt(&self, f: &mut std::fmt::Formatter<'_>) -> std::fmt::Result {
        f.write_str(&format!("{{0}} \"q\" }}{{: {}", &self.source().expect("Braced always has a source")))
    }
}
impl std::error::Error for Braced {
    fn source(&self) -> Option<&(dyn std::error::Error + 'static)> {
        match self {
            Self::Variant0(err) => Some(err),
        }
    }
}
impl From<Overflow> for Braced {
    fn from(value: Overflow) -> Self {
        Self::Variant0(value)
    }
}
"#;

/// The generated text with its one `write!(f, ..)` written as
/// `f.write_str(&format!(..))`.
fn as_compiled(generated: &str) -> String {
    let mut text = String::new();
    let mut writes = 0;
    for line in generated.lines() {
        match line.strip_prefix("        write!(f, ") {
            Some(rest) => {
                text.push_str("        f.write_str(&format!(");
                text.push_str(rest);
                text.push(')');
                writes += 1;
            }
            None => text.push_str(line),
        }
        text.push('\n');
    }
    assert_eq!(writes, 1);
    text
}

#[test]
fn the_items_above_are_what_is_generated() {
    assert_eq!(as_compiled(&error_leaf("\"overflow detected\"", "struct Overflow;").unwrap()), OVERFLOW);
    assert_eq!(as_compiled(&error_node("type ParseErrorNode<Overflow>").unwrap()), PARSE_ERROR_NODE);
    assert_eq!(as_compiled(&error_leaf("\"io fault\"", "struct IoFault { code: i32, }").unwrap()), IO_FAULT);
    assert_eq!(
        as_compiled(
            &error_leaf(
                "format!(\"{} refused after {} tries\", self.who, self.tries)",
                "struct Refused { who: String, tries: i64, }"
            )
            .unwrap()
        ),
        REFUSED
    );
    assert_eq!(as_compiled(&error_node("type LowNode<IoFault, Refused> = \"low\"").unwrap()), LOW_NODE);
    assert_eq!(
        as_compiled(&error_node("pub type HighNode<LowNode, std::fmt::Error,> = \"high\"").unwrap()),
        HIGH_NODE
    );
    assert_eq!(as_compiled(&error_node("type Braced<Overflow> = \"{0} \\\"q\\\" }{\"").unwrap()), BRACED);
}

#[test]
fn compiled_leaf_with_literal_renders_the_literal() {
    assert_eq!(Overflow.to_string(), "overflow detected");
    assert_eq!(IoFault { code: 0 }.to_string(), "io fault");
    assert_eq!(IoFault { code: -7 }.to_string(), "io fault");
    assert_eq!(IoFault { code: i32::MIN }.to_string(), "io fault");
}

#[test]
fn compiled_leaf_with_template_renders_its_fields() {
    let refused = Refused { who: "gate".to_string(), tries: 3 };
    assert_eq!(refused.to_string(), "gate refused after 3 tries");
    let empty = Refused { who: String::new(), tries: 0 };
    assert_eq!(empty.to_string(), " refused after 0 tries");
    let negative = Refused { who: "{}".to_string(), tries: -1 };
    assert_eq!(negative.to_string(), "{} refused after -1 tries");
}

#[test]
fn compiled_leaf_has_no_cause() {
    assert!(Overflow.source().is_none());
    assert!(IoFault { code: 5 }.source().is_none());
    assert!(Refused { who: "x".to_string(), tries: 1 }.source().is_none());
}

#[test]
fn compiled_constructor_then_cause_gives_the_value_back() {
    let low = LowNode::from(Refused { who: "gate".to_string(), tries: 2 });
    let held = match &low {
        LowNode::Variant1(held) => held,
        LowNode::Variant0(_) => panic!("the second type went to the first variant"),
    };
    assert!(std::ptr::addr_eq(low.source().unwrap(), held));
    assert_eq!(low.source().unwrap().to_string(), "gate refused after 2 tries");

    let low = LowNode::from(IoFault { code: 9 });
    let held = match &low {
        LowNode::Variant0(held) => held,
        LowNode::Variant1(_) => panic!("the first type went to the second variant"),
    };
    assert_eq!(held.code, 9);
    assert!(std::ptr::addr_eq(low.source().unwrap(), held));

    let high = HighNode::from(std::fmt::Error);
    assert!(matches!(high, HighNode::Variant1(_)));
    assert_eq!(high.source().unwrap().to_string(), std::fmt::Error.to_string());
}

#[test]
fn compiled_node_renders_prefix_colon_cause() {
    let low = LowNode::from(IoFault { code: 1 });
    assert_eq!(low.to_string(), format!("low: {}", low.source().unwrap()));
    let high = HighNode::from(low);
    assert_eq!(high.to_string(), format!("high: {}", high.source().unwrap()));
    let named = ParseErrorNode::from(Overflow);
    assert_eq!(named.to_string(), format!("ParseErrorNode: {}", named.source().unwrap()));
    let braced = Braced::from(Overflow);
    assert_eq!(braced.to_string(), "{0} \"q\" }{: overflow detected");
}

#[test]
fn compiled_parse_error_node_over_overflow() {
    assert_eq!(ParseErrorNode::from(Overflow).to_string(), "ParseErrorNode: overflow detected");
}

#[test]
fn compiled_high_node_over_low_node_over_io_fault() {
    let high = HighNode::from(LowNode::from(IoFault { code: 2 }));
    assert_eq!(high.to_string(), "high: low: io fault");
}

#[test]
fn compiled_conversion_lifts_a_child_error() {
    fn fails() -> Result<(), IoFault> {
        Err(IoFault { code: 3 })
    }
    fn low() -> Result<(), LowNode> {
        fails()?;
        Ok(())
    }
    fn high() -> Result<(), HighNode> {
        low()?;
        Ok(())
    }
    assert_eq!(high().unwrap_err().to_string(), "high: low: io fault");
}
