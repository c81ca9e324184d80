pub mod spring_bones;
