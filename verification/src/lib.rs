//! Generation of Xcode project files: the object graph of a project,
//! its stable identifiers, and the text of the project file, schemes and
//! property lists.
pub mod text;
pub mod smap;
pub mod graph;
pub mod json;
pub mod paths;
pub mod products;
pub mod references;
pub mod serialize;
pub mod xml;
pub mod scheme;
pub mod plist;
pub mod natural;
pub mod rules;
pub mod depth;
pub mod model;
pub mod generator;
pub mod configs;
pub mod settings;
pub mod files;
pub mod sorting;
pub mod groups;
pub mod writer;
pub mod schemes;
pub mod version;
pub mod scheme_files;
pub mod target_schemes;
pub mod embed;
pub mod laws;
pub mod target_presets;
pub mod target_defaults;
pub mod scripts;
pub mod transitive;
pub mod sources;

pub use writer::{GeneratedProject, ProjectWriteError, ProjectWriter};
