pub mod compats;
