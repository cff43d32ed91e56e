pub mod sorted_tri;
