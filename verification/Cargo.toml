[package]
name = "sslgame"
version = "0.1.0"
edition = "2021"
publish = false

[dependencies]
async-channel = "=2.5.0"
async-io = "=2.6.0"
async-net = "=2.0.0"
async-tungstenite = "=0.35.0"
bytes = "=1.12.1"
futures-lite = "=2.6.1"
libc = "=0.2.191"
network-interface = "=2.0.5"
prost = "=0.14.4"
socket2 = "=0.6.5"
windows-sys = { version = "=0.61.2", features = ["Win32_Foundation", "Win32_NetworkManagement_IpHelper", "Win32_NetworkManagement_Ndis", "Win32_Networking_WinSock"] }
