//! Program error codes.
use vstd::prelude::*;

verus! {

/// Every way an Orbital operation can be rejected.
#[derive(Clone, Copy, Debug, PartialEq, Eq, Structural)]
pub enum OrbitalError {
    // ── Math Errors ──
    /// Math overflow in fixed-point operation
    MathOverflow,
    /// Division by zero
    DivisionByZero,
    /// Square root of negative number
    SqrtNegative,
    // ── Invariant Errors ──
    /// Sphere invariant violated: ||r - x||^2 != r^2
    InvariantViolation,
    /// Torus invariant computation failed
    TorusInvariantError,
    // ── Pool Errors ──
    /// Pool already initialized
    PoolAlreadyInitialized,
    /// Invalid number of assets (must be 2..=8)
    InvalidAssetCount,
    /// Invalid fee rate
    InvalidFeeRate,
    /// Insufficient liquidity for swap
    InsufficientLiquidity,
    /// Pool is not active
    PoolNotActive,
    /// Slippage tolerance exceeded
    SlippageExceeded,
    /// Same token swap not allowed
    SameTokenSwap,
    /// Invalid token index
    InvalidTokenIndex,
    // ── Tick Errors ──
    /// Invalid tick bound k
    InvalidTickBound,
    /// Tick crossing detected but not handled
    UnhandledTickCrossing,
    // ── Newton Solver Errors ──
    /// Newton solver diverged
    NewtonDivergence,
    /// Solver did not converge within max iterations
    SolverDidNotConverge,
    // ── Liquidity Errors ──
    /// Invalid liquidity amount
    InvalidLiquidityAmount,
    /// Trade amount must be non-negative
    NegativeTradeAmount,
    /// Position not found
    PositionNotFound,
    /// Insufficient position balance
    InsufficientPositionBalance,
    // ── Policy Errors ──
    /// Unauthorized: caller not in allowlist
    Unauthorized,
    /// Policy not found
    PolicyNotFound,
    /// Trade exceeds policy limit
    PolicyLimitExceeded,
    /// Allowlist is full
    AllowlistFull,
    /// Address already in allowlist
    AlreadyInAllowlist,
    /// Address not in allowlist
    NotInAllowlist,
    // ── Settlement Errors ──
    /// Settlement policy check failed
    SettlementPolicyViolation,
    /// Invalid settlement amount
    InvalidSettlementAmount,
    /// Settlement audit trail creation failed
    AuditTrailError,
    // ── Pool Validation ──
    /// Duplicate token mint in pool
    DuplicateTokenMint,
    // ── Instruction account validation ──
    /// Wrong number of remaining accounts for the instruction
    InvalidRemainingAccounts,
    /// A vault or linked account does not match the pool state
    InvalidVaultAddress,
    /// Tick account is not owned by the program or cannot be decoded
    InvalidTickAccount,
    /// Tick account could not be written back
    TickSerializationFailed,
    /// Swap output rounds down to zero base units
    SwapOutputTooSmall,
    /// Trade would exceed the policy's daily volume
    DailyVolumeLimitExceeded,
    /// Policy update names no field
    NoFieldsToUpdate,
    /// Tick does not belong to the pool
    TickPoolMismatch,
    /// Tick still holds liquidity
    TickHasLiquidity,
    /// Pool still holds liquidity
    PoolNotEmpty,
}

} // verus!
