pub mod websocket_server;
