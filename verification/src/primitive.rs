pub mod hittable;
pub mod hittable_list;
pub mod sphere;
