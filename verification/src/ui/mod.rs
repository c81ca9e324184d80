pub mod orbit_camera;
