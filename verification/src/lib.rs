//! A software rasterizer over exact fixed-point arithmetic.
//!
//! Triangles with per-vertex colours are transformed by 4x4 matrices,
//! perspective-divided, mapped to raster space and scan-converted with
//! the edge function; a per-pixel depth test keeps the nearest fragment.
//! All coordinates are signed 64-bit fixed-point values with scale
//! `FP` (65536 units per 1.0).

mod fixed;
mod model;
mod painter;
mod utils;

pub use fixed::COORD_MAX;
pub use fixed::FP;
pub use fixed::HALF;
pub use fixed::NDC_MAX;
pub use fixed::div_signed;
pub use fixed::tdiv;
pub use model::Bary;
pub use model::Model;
pub use model::Vec2;
pub use model::Vec3;
pub use model::Vertex;
pub use model::create_model;
pub use model::cube_colour;
pub use model::cube_corner;
pub use model::cube_indices;
pub use model::cube_vertex;
pub use model::Mat4;
pub use model::TRANS_MAX;
pub use model::get_cube_model;
pub use model::interp_val;
pub use model::lemma_interp_convex;
pub use model::mat_apply_pos;
pub use model::mat_apply_w;
pub use model::mat_bounded;
pub use model::project_model;
pub use model::project_pos;
pub use model::row_apply;
pub use model::tranform_model;
pub use model::lemma_vertex_reproduction;
pub use model::vec3_bounded;
pub use model::vec3_in_unit;
pub use painter::MAX_DIM;
pub use painter::Painter;
pub use painter::Pixel;
pub use painter::area_of;
pub use painter::bary_at;
pub use painter::centre_of;
pub use painter::clamp_spec;
pub use painter::covers;
pub use painter::depth_of;
pub use painter::edge_s;
pub use painter::edge_v;
pub use painter::lemma_barycentric_partition;
pub use painter::lemma_degenerate_no_op;
pub use painter::lemma_depth_order_independent;
pub use painter::lemma_edge_identities;
pub use painter::lemma_edge_swap;
pub use painter::scale255;
pub use painter::shade_of;
pub use painter::tri_pixel_colour;
pub use painter::tri_pixel_depth;
pub use painter::w0_at;
pub use painter::w1_at;
pub use painter::w2_at;
pub use painter::draw_colour_upto;
pub use painter::draw_depth_upto;
pub use painter::lemma_covers_in_bbox;
pub use painter::lemma_flat_index_of;
pub use painter::lemma_index_flat;
pub use painter::max3;
pub use painter::min3;
pub use painter::raster_c;
pub use painter::raster_vertex;
pub use painter::tri_apply_colour;
pub use painter::tri_apply_depth;
pub use painter::vertex_in_ndc;
pub use painter::xy_of;
pub use utils::max;
pub use utils::min;
