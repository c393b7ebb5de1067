[package]
name = "cat_fax"
version = "0.1.0"
edition = "2021"
publish = false

[dependencies]
better_term = "=1.4.61"
rand = "=0.8.8"
gfx = "=0.18.3"
gfx_glyph = "=0.17.1"
glutin = "=0.28.0"
glyph_brush = "=0.7.12"
old_school_gfx_glutin_ext = "=0.28.0"
