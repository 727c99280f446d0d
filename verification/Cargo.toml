[package]
name = "solo2-runner"
version = "0.1.0"
edition = "2021"
publish = false

[dependencies]
apdu-dispatch = "=0.4.1"
cortex-m = "=0.7.10"
cortex-m-rt = "=0.7.7"
ctaphid-dispatch = "=0.4.0"
defmt = "=0.3.101"
defmt-rtt = "0.4"
embedded-hal = "=0.2.7"
embedded-time = "=0.12.1"
nrf52840-hal = "=0.16.1"
nrf52840-pac = { version = "=0.12.2", features = ["rt"] }
rtic = { version = "=2.4.0", features = ["thumbv7-backend"] }
rtic-monotonics = { version = "=2.2.1", features = ["cortex-m-systick"] }
rtic-sync = "=1.6.0"
trussed-core = "=0.2.3"
trussed = { version = "=0.2.1", default-features = false }
usb-device = "=0.3.2"
usbd-ctaphid = "=0.5.0"
