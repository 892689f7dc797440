pub mod chars;
pub mod front_matter;
pub mod node;
pub mod parser;
pub mod post_set;
pub mod render;
pub mod site;
pub mod substitute;
pub mod templater;
pub mod transform;

pub use node::{Document, ListType, Node, ToHtml};
pub use parser::{try_parse, Parser};
pub use templater::{Buildable, Conf, HomeTemplate, Page, PostTemplate};
pub use transform::{Transform, Transforms};
