pub mod vmc_receiver;
