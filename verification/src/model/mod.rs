pub mod geom;
