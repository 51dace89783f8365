//! Content-addressed manifest of the files and symbolic links below a root
//! directory: the record format, its dual checksum, the prefix banlist and the
//! planning of subtree synchronisation, each with a machine-checked contract.

pub mod e_d_list;
pub mod path_banlist;
pub mod shared;

pub use shared::interfacer::UserInterface;
