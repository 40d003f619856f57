pub mod game_init_scene;
