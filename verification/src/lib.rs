pub mod builder;
pub mod context;
pub mod json;
pub mod region;
pub mod store;
pub mod table;
pub mod value;

pub use builder::JSONGetTextBuildError;
pub use builder::JSONGetTextBuilder;
pub use region::Key;
pub use store::JSONGetText;
pub use table::LocaleTable;
pub use value::TextValue;
pub use value::ValueModel;
