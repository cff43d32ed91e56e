pub mod tb_fna;
pub mod tb_old;
pub mod tb_sub;
pub mod triple_buffer;
