//! Generation of quantum-chemistry job inputs from parameterized text
//! templates and multi-frame molecular geometry files.

pub mod config;
pub mod driver;
pub mod error;
pub mod molecule;
pub mod render;
pub mod template;
pub mod text;

pub use error::GeometryFormatError;
pub use error::IndexOutOfRange;
pub use error::RenderError;
pub use error::TemplateHeaderError;
pub use config::ArgType;
pub use config::GedentConfig;
pub use driver::Input;
pub use molecule::AtomRecord;
pub use molecule::Molecule;
pub use render::CtxValue;
pub use render::RenderContext;
pub use template::Template;
pub use template::TemplateOptions;
